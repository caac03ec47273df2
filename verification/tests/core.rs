use musiclang::diagnostic::Diagnostic;
use musiclang::music::{Chord, CoreError, Duration, Interval, Pitch, PitchClass};
use musiclang::theory::{theory_catalog, TheoryCatalog, TheoryDomain};

#[test]
fn theory_catalog_covers_major_domains() {
    let catalog = theory_catalog();

    assert!(catalog.intervals.iter().any(|entry| entry.id == "P5"));
    assert!(catalog.scales.iter().any(|entry| entry.id == "blues"));
    assert!(catalog.modes.iter().any(|entry| entry.id == "dorian"));
    assert!(catalog
        .chord_qualities
        .iter()
        .any(|entry| entry.id == "dominant7"));
    assert!(catalog.cadences.iter().any(|entry| entry.id == "deceptive"));
    assert!(catalog.meters.iter().any(|entry| entry.id == "6/8"));
    assert!(catalog.rhythms.iter().any(|entry| entry.id == "hemiola"));
    assert!(catalog.forms.iter().any(|entry| entry.id == "sonata"));
    assert!(catalog.textures.iter().any(|entry| entry.id == "polyphony"));
    assert!(catalog.ornaments.iter().any(|entry| entry.id == "trill"));
    assert!(catalog.ornaments.iter().any(|entry| entry.id == "staccato"));
    assert!(catalog
        .contrapuntal_motions
        .iter()
        .any(|entry| entry.id == "contrary"));
    assert!(catalog
        .non_chord_tones
        .iter()
        .any(|entry| entry.id == "suspension"));
    assert!(catalog
        .harmonic_functions
        .iter()
        .any(|entry| entry.id == "dominant"));
    assert!(catalog
        .set_classes
        .iter()
        .any(|entry| entry.id == "all_interval_tetrachord"));
    assert!(catalog
        .tuning_systems
        .iter()
        .any(|entry| entry.id == "just_intonation"));
    assert!(catalog
        .world_traditions
        .iter()
        .any(|entry| entry.id == "maqam"));
    assert!(catalog.style_eras.iter().any(|entry| entry.id == "jazz"));
}

#[test]
fn theory_catalog_is_queryable_by_domain_and_id() {
    let catalog = theory_catalog();

    assert_eq!(TheoryCatalog::domains().len(), 18);
    assert!(catalog
        .entries(TheoryDomain::Scales)
        .iter()
        .any(|entry| entry.id == "major_pentatonic"));
    assert!(catalog
        .entries(TheoryDomain::Dynamics)
        .iter()
        .any(|entry| entry.id == "mf" && entry.pattern == ["80"]));
    assert!(catalog
        .entries(TheoryDomain::HarmonicFunctions)
        .iter()
        .any(|entry| entry.id == "secondary_dominant"));

    let (domain, entry) = catalog.find("maqam").unwrap();
    assert_eq!(domain, TheoryDomain::WorldTraditions);
    assert_eq!(entry.name, "Arabic maqam");
    assert_eq!(
        TheoryDomain::parse("scales").unwrap(),
        TheoryDomain::Scales
    );
    assert_eq!(
        TheoryDomain::parse("harmonic_functions").unwrap(),
        TheoryDomain::HarmonicFunctions
    );
}

#[test]
fn lib_diagnostic_error_keeps_legacy_location_and_span() {
    let diagnostic = Diagnostic::error("ML_TEST", "test", 3, 7);

    assert_eq!(diagnostic.line, 3);
    assert_eq!(diagnostic.column, 7);
    assert_eq!(diagnostic.span.unwrap().line, 3);
    assert_eq!(diagnostic.span.unwrap().column, 7);
}

#[test]
fn parses_pitch_literal() {
    assert_eq!(
        Pitch::parse("C4").unwrap(),
        Pitch::new(PitchClass::C, 4).unwrap()
    );
    assert_eq!(
        Pitch::parse("Bb3").unwrap(),
        Pitch::new(PitchClass::As, 3).unwrap()
    );
}

#[test]
fn transposes_c4_by_major_third_to_e4() {
    let c4 = Pitch::new(PitchClass::C, 4).unwrap();
    let e4 = c4.add(Interval::major_third());

    assert_eq!(e4.unwrap(), Pitch::new(PitchClass::E, 4).unwrap());
}

#[test]
fn transposes_e4_down_by_minor_third_to_cs4() {
    let e4 = Pitch::new(PitchClass::E, 4).unwrap();
    let cs4 = e4.sub(Interval::minor_third());

    assert_eq!(cs4.unwrap(), Pitch::new(PitchClass::Cs, 4).unwrap());
}

#[test]
fn rejects_pitch_outside_midi_range() {
    assert_eq!(
        Pitch::new(PitchClass::B, 9).unwrap_err(),
        CoreError::InvalidMidiNumber(131)
    );
}

#[test]
fn rejects_zero_duration_denominator() {
    assert_eq!(
        Duration::new(1, 0).unwrap_err(),
        CoreError::ZeroDurationDenominator
    );
}

#[test]
fn rejects_zero_duration_numerator() {
    assert_eq!(
        Duration::new(0, 4).unwrap_err(),
        CoreError::NonPositiveDuration
    );
}

#[test]
fn normalizes_duration() {
    let duration = Duration::new(2, 8).unwrap();

    assert_eq!(duration.numerator(), 1);
    assert_eq!(duration.denominator(), 4);
}

#[test]
fn rejects_empty_chord() {
    let duration = Duration::new(1, 4).unwrap();

    assert_eq!(Chord::new(Vec::new(), duration), Err(CoreError::EmptyChord));
}

#[test]
fn transposing_up_and_back_gives_the_pitch_again() {
    let g3 = Pitch::new(PitchClass::G, 3).unwrap();
    let up = g3.add(Interval::new(13)).unwrap();
    assert_eq!(up, Pitch::new(PitchClass::Gs, 4).unwrap());
    assert_eq!(up.sub(Interval::new(13)).unwrap(), g3);
}

#[test]
fn midi_number_round_trips_through_pitch() {
    let p = Pitch::new(PitchClass::As, 2).unwrap();
    let m = p.midi_number().unwrap();
    assert_eq!(m, 46);
    assert_eq!(Pitch::from_midi_number(m as i16).unwrap(), p);
}

#[test]
fn pitch_class_names_parse_back() {
    for class in [
        PitchClass::C,
        PitchClass::Cs,
        PitchClass::D,
        PitchClass::Ds,
        PitchClass::E,
        PitchClass::F,
        PitchClass::Fs,
        PitchClass::G,
        PitchClass::Gs,
        PitchClass::A,
        PitchClass::As,
        PitchClass::B,
    ] {
        assert_eq!(PitchClass::parse(class.name()).unwrap(), class);
    }
}

#[test]
fn theory_domain_names_parse_back() {
    for domain in TheoryCatalog::domains() {
        assert_eq!(TheoryDomain::parse(domain.name()).unwrap(), domain);
    }
}

#[test]
fn catalog_patterns_are_as_listed() {
    let catalog = theory_catalog();
    let (domain, entry) = catalog.find("blues").unwrap();
    assert_eq!(domain, TheoryDomain::Scales);
    assert_eq!(entry.pattern, vec!["3", "2", "1", "1", "3", "2"]);
}

#[test]
fn pitch_text_parses_back() {
    for (class, octave) in [(PitchClass::Cs, 4), (PitchClass::B, -1), (PitchClass::G, 9), (PitchClass::A, 0)] {
        let pitch = Pitch::new(class, octave).unwrap();
        assert_eq!(Pitch::parse(pitch.to_text().as_str()).unwrap(), pitch);
    }
}

#[test]
fn durations_are_kept_in_lowest_terms_whatever_the_scale() {
    for (n, d) in [(1u32, 4u32), (3, 8), (6, 4), (5, 1)] {
        let base = Duration::new(n, d).unwrap();
        for k in [1u32, 2, 3, 7, 12] {
            assert_eq!(Duration::new(k * n, k * d).unwrap(), base);
        }
    }
    let reduced = Duration::new(12, 18).unwrap();
    assert_eq!((reduced.numerator(), reduced.denominator()), (2, 3));
}
