use musiclang::compiler::{compile_source, compile_source_with_diagnostics, diagnose_source};
use musiclang::diagnostic::Severity;
use musiclang::music::Pitch;

#[test]
fn compiles_minimal_score_to_ir() {
    let ir = compile_source(
        r#"
score demo {
  voice lead {
note C4, 1/4
chord [C4, E4, G4], 1/2
  }
}
"#,
    )
    .unwrap();

    assert_eq!(ir.title, "demo");
    assert_eq!(ir.tracks[0].events.len(), 4);
}

#[test]
fn style_violation_fails_without_override() {
    let diagnostics = compile_source(
        r#"
style Classical
score demo {
  voice lead {
note F#4, 1/4
  }
}
"#,
    )
    .unwrap_err();

    assert_eq!(diagnostics[0].code, "ML_STYLE_SCALE");
}

#[test]
fn style_diagnostics_include_statement_span() {
    let source = r#"
style Classical
score demo {
  voice lead {
note F#4, 1/4
  }
}
"#;
    let diagnostics = compile_source(source).unwrap_err();
    let diagnostic = diagnostics
        .iter()
        .find(|diagnostic| diagnostic.code == "ML_STYLE_SCALE")
        .unwrap();
    let span = diagnostic.span.unwrap();
    let expected_start = source.find("note F#4").unwrap();

    assert_eq!(span.start, expected_start);
    assert_eq!(span.end, expected_start + "note".len());
}

#[test]
fn override_allows_style_violation() {
    let ir = compile_source(
        r#"
style Classical
score demo {
  voice lead {
override scale allow reason "intentional chromatic color" {
  note F#4, 1/4
}
  }
}
"#,
    )
    .unwrap();

    assert_eq!(ir.overrides.len(), 1);
    assert_eq!(ir.tracks[0].events.len(), 1);
}

#[test]
fn supports_let_for_if_and_function_call() {
    let ir = compile_source(
        r#"
fn motif {
  note C4, 1/8
}
score demo {
  voice lead {
let d = duration 1/4
for i in 0..3 {
  if i == 1 {
    call motif
  }
  note E4, d
}
  }
}
"#,
    )
    .unwrap();

    assert_eq!(ir.tracks[0].events.len(), 4);
}

#[test]
fn supports_configured_style_scale() {
    let diagnostics = compile_source(
        r#"
style Sparse {
  scale: C E G
}
score demo {
  voice lead {
note D4, 1/4
  }
}
"#,
    )
    .unwrap_err();

    assert_eq!(diagnostics[0].code, "ML_STYLE_SCALE");
    assert_eq!(diagnostics[0].style.as_deref(), Some("Sparse"));
}

#[test]
fn scale_pattern_derives_enforced_pitch_classes() {
    let ir = compile_source(
        r#"
style BluesInC {
  scale_pattern: C blues
}
score demo {
  voice lead {
note F#4, 1/4
  }
}
"#,
    )
    .unwrap();

    assert_eq!(ir.tracks[0].events.len(), 1);
}

#[test]
fn scale_pattern_rejects_notes_outside_derived_scale() {
    let diagnostics = compile_source(
        r#"
style BluesInC {
  scale_pattern: C blues
}
score demo {
  voice lead {
note B4, 1/4
  }
}
"#,
    )
    .unwrap_err();

    assert_eq!(diagnostics[0].code, "ML_STYLE_SCALE");
}

#[test]
fn mode_pattern_derives_enforced_pitch_classes() {
    let ir = compile_source(
        r#"
style DorianOnD {
  mode_pattern: D dorian
}
score demo {
  voice lead {
note B4, 1/4
  }
}
"#,
    )
    .unwrap();

    assert_eq!(ir.tracks[0].events.len(), 1);
}

#[test]
fn mode_pattern_rejects_notes_outside_derived_mode() {
    let diagnostics = compile_source(
        r#"
style DorianOnD {
  mode_pattern: D dorian
}
score demo {
  voice lead {
note Bb4, 1/4
  }
}
"#,
    )
    .unwrap_err();

    assert_eq!(diagnostics[0].code, "ML_STYLE_SCALE");
}

#[test]
fn supports_pitch_interval_expression() {
    let ir = compile_source(
        r#"
score demo {
  voice lead {
note C4 + M3, 1/4
note E4 - m3, 1/4
  }
}
"#,
    )
    .unwrap();

    assert_eq!(ir.tracks[0].events[0].pitch, Pitch::parse("E4").unwrap());
    assert_eq!(ir.tracks[0].events[1].pitch, Pitch::parse("C#4").unwrap());
}

#[test]
fn supports_builtin_expression_calls_and_lists() {
    let ir = compile_source(
        r#"
score demo {
  voice lead {
let pitches = [C4, E4, G4]
note transpose(C4, M3), 1/4
note first(pitches), 1/4
  }
}
"#,
    )
    .unwrap();

    assert_eq!(ir.tracks[0].events[0].pitch, Pitch::parse("E4").unwrap());
    assert_eq!(ir.tracks[0].events[1].pitch, Pitch::parse("C4").unwrap());
}

#[test]
fn supports_chord_from_pitch_list_expression() {
    let ir = compile_source(
        r#"
score demo {
  voice lead {
let pitches = [C4, E4, G4]
chord [pitches], 1/4
  }
}
"#,
    )
    .unwrap();

    assert_eq!(ir.tracks[0].events.len(), 3);
}

#[test]
fn validates_theory_domain_references_in_style() {
    let ir = compile_source(
        r#"
style TheoryRich {
  scales: blues major_pentatonic
  harmonic_functions: tonic dominant secondary_dominant
  world_traditions: maqam hindustani_raga
  set_classes: 016 all_interval_tetrachord
}
score demo {
  voice lead {
note C4, 1/4
  }
}
"#,
    )
    .unwrap();

    assert_eq!(ir.tracks[0].events.len(), 1);
}

#[test]
fn validates_custom_theory_domain_references_in_style() {
    let ir = compile_source(
        r#"
style MicrotonalPractice {
  theory_microgestures: bend flutter split_tone
  microgestures: bend split_tone
}
score demo {
  voice lead {
note C4, 1/4
  }
}
"#,
    )
    .unwrap();

    assert_eq!(ir.tracks[0].events.len(), 1);
}

#[test]
fn invalid_custom_theory_reference_fails() {
    let diagnostics = compile_source(
        r#"
style MicrotonalPractice {
  theory_microgestures: bend flutter
  microgestures: unknown_gesture
}
score demo {
  voice lead {
note C4, 1/4
  }
}
"#,
    )
    .unwrap_err();

    assert_eq!(diagnostics[0].code, "ML_STYLE_UNKNOWN_THEORY_ENTRY");
    assert_eq!(diagnostics[0].rule.as_deref(), Some("microgestures"));
}

#[test]
fn invalid_theory_reference_fails() {
    let diagnostics = compile_source(
        r#"
style TheoryRich {
  harmonic_functions: imaginary_function
}
score demo {
  voice lead {
note C4, 1/4
  }
}
"#,
    )
    .unwrap_err();

    assert_eq!(diagnostics[0].code, "ML_STYLE_UNKNOWN_THEORY_ENTRY");
    assert_eq!(diagnostics[0].rule.as_deref(), Some("harmonic_functions"));
}

#[test]
fn executed_style_rule_inputs_validate_theory_entries() {
    for key in [
        "rhythm_concept",
        "contrapuntal_motion",
        "cadence",
        "harmonic_progression",
        "texture",
        "form",
        "meter_catalog",
    ] {
        let source = format!(
            r#"
style TheoryRich {{
  {key}: imaginary_entry
}}
score demo {{
  voice lead {{
note C4, 1/4
  }}
}}
"#
        );
        let diagnostics = compile_source(&source).unwrap_err();

        assert_eq!(diagnostics[0].code, "ML_STYLE_UNKNOWN_THEORY_ENTRY");
        assert_eq!(diagnostics[0].rule.as_deref(), Some(key));
    }
}

#[test]
fn unknown_style_key_fails() {
    let diagnostics = compile_source(
        r#"
style TheoryRich {
  imaginary_domain: anything
}
score demo {
  voice lead {
note C4, 1/4
  }
}
"#,
    )
    .unwrap_err();

    assert_eq!(diagnostics[0].code, "ML_STYLE_UNKNOWN_KEY");
}

#[test]
fn unknown_name_uses_stable_diagnostic_code() {
    let diagnostics = compile_source(
        r#"
score demo {
  voice lead {
note missing, 1/4
  }
}
"#,
    )
    .unwrap_err();

    assert_eq!(diagnostics[0].code, "ML_RESOLVE_UNKNOWN_NAME");
}

#[test]
fn duplicate_function_uses_stable_diagnostic_code() {
    let source = r#"
fn motif {
  note C4, 1/4
}
fn motif {
  note D4, 1/4
}
score demo {
  voice lead {
call motif
  }
}
"#;
    let diagnostics = compile_source(source).unwrap_err();

    assert_eq!(diagnostics[0].code, "ML_RESOLVE_DUPLICATE_NAME");
    let span = diagnostics[0].span.unwrap();
    let expected_start = source.rfind("fn motif").unwrap();
    assert_eq!(span.start, expected_start);
    assert_eq!(span.end, expected_start + "fn".len());
}

#[test]
fn recursive_call_uses_stable_diagnostic_code() {
    let diagnostics = compile_source(
        r#"
fn motif {
  call motif
}
score demo {
  voice lead {
call motif
  }
}
"#,
    )
    .unwrap_err();

    assert_eq!(diagnostics[0].code, "ML_RESOLVE_RECURSIVE_CALL");
}

#[test]
fn indirect_recursive_call_uses_stable_diagnostic_code() {
    let diagnostics = compile_source(
        r#"
fn first {
  call second
}
fn second {
  call first
}
score demo {
  voice lead {
call first
  }
}
"#,
    )
    .unwrap_err();

    assert_eq!(diagnostics[0].code, "ML_RESOLVE_RECURSIVE_CALL");
}

#[test]
fn type_mismatch_uses_stable_diagnostic_code() {
    let diagnostics = compile_source(
        r#"
score demo {
  voice lead {
note 1, 1/4
  }
}
"#,
    )
    .unwrap_err();

    assert_eq!(diagnostics[0].code, "ML_TYPE_MISMATCH");
}

#[test]
fn custom_style_rule_can_be_overridden() {
    let ir = compile_source(
        r#"
style Experimental {
  rule_microtonal_collision: locally defined microtonal voice interaction
}
score demo {
  voice lead {
override microtonal_collision allow reason "intentional beating" {
  note C4, 1/4
}
  }
}
"#,
    )
    .unwrap();

    assert_eq!(ir.overrides[0].rule, "microtonal_collision");
    assert_eq!(ir.tracks[0].events.len(), 1);
}

#[test]
fn unknown_override_rule_fails() {
    let source = r#"
score demo {
  voice lead {
override imaginary allow {
  note C4, 1/4
}
  }
}
"#;
    let diagnostics = compile_source(source).unwrap_err();

    assert_eq!(diagnostics[0].code, "ML_STYLE_UNKNOWN_RULE");
    assert_eq!(diagnostics[0].rule.as_deref(), Some("imaginary"));
    let span = diagnostics[0].span.unwrap();
    let expected_start = source.find("override imaginary").unwrap();
    assert_eq!(span.start, expected_start);
    assert_eq!(span.end, expected_start + "override".len());
}

#[test]
fn lowers_score_and_voice_metadata() {
    let ir = compile_source(
        r#"
score demo {
  tempo 96
  meter 3/4
  key F major
  voice lead {
program 40
note C4, 1/4
  }
}
"#,
    )
    .unwrap();

    assert_eq!(ir.tempo_bpm, 96);
    assert_eq!(ir.meter.unwrap().numerator, 3);
    assert_eq!(ir.key.unwrap().fifths, -1);
    assert!(!ir.key.unwrap().is_minor);
    assert_eq!(ir.tracks[0].program, Some(40));
}

#[test]
fn chord_vocab_rule_fails() {
    let diagnostics = compile_source(
        r#"
style Triads {
  chord_vocab: C E G
}
score demo {
  voice lead {
chord [C4, D4, G4], 1/4
  }
}
"#,
    )
    .unwrap_err();

    assert_eq!(diagnostics[0].code, "ML_STYLE_CHORD_VOCAB");
}

#[test]
fn chord_quality_vocab_accepts_catalog_quality() {
    let ir = compile_source(
        r#"
style Triads {
  chord_quality_vocab: major minor
}
score demo {
  voice lead {
chord [C4, E4, G4], 1/4
chord [D4, F4, A4], 1/4
  }
}
"#,
    )
    .unwrap();

    assert_eq!(ir.tracks[0].events.len(), 6);
}

#[test]
fn chord_quality_vocab_rejects_unlisted_quality() {
    let diagnostics = compile_source(
        r#"
style MajorOnly {
  chord_quality_vocab: major
}
score demo {
  voice lead {
chord [C4, Eb4, G4], 1/4
  }
}
"#,
    )
    .unwrap_err();

    assert_eq!(diagnostics[0].code, "ML_STYLE_CHORD_QUALITY_VOCAB");
    assert_eq!(diagnostics[0].rule.as_deref(), Some("chord_quality_vocab"));
}

#[test]
fn meter_rule_fails() {
    let diagnostics = compile_source(
        r#"
style Three {
  meter: 3/4
}
score demo {
  meter 4/4
  voice lead {
note C4, 1/4
  }
}
"#,
    )
    .unwrap_err();

    assert_eq!(diagnostics[0].code, "ML_STYLE_METER");
}

#[test]
fn meter_catalog_accepts_listed_catalog_meter() {
    let ir = compile_source(
        r#"
style CompoundOrTriple {
  meter_catalog: 3/4 6/8
}
score demo style CompoundOrTriple {
  meter 6/8
  voice lead {
note C4, 1/8
  }
}
"#,
    )
    .unwrap();

    assert_eq!(ir.meter.unwrap().numerator, 6);
}

#[test]
fn meter_catalog_rejects_unlisted_meter() {
    let diagnostics = compile_source(
        r#"
style CompoundOnly {
  meter_catalog: 6/8
}
score demo style CompoundOnly {
  meter 4/4
  voice lead {
note C4, 1/4
  }
}
"#,
    )
    .unwrap_err();

    assert_eq!(diagnostics[0].code, "ML_STYLE_METER_CATALOG");
    assert_eq!(diagnostics[0].rule.as_deref(), Some("meter_catalog"));
}

#[test]
fn max_melodic_leap_rule_fails() {
    let diagnostics = compile_source(
        r#"
style Smooth {
  max_melodic_leap: M3
}
score demo style Smooth {
  voice lead {
note C4, 1/4
note G4, 1/4
  }
}
"#,
    )
    .unwrap_err();

    assert_eq!(diagnostics[0].code, "ML_STYLE_MAX_MELODIC_LEAP");
}

#[test]
fn override_allows_max_melodic_leap_violation() {
    let ir = compile_source(
        r#"
style Smooth {
  max_melodic_leap: M3
}
score demo style Smooth {
  voice lead {
override max_melodic_leap allow reason "registral contrast" {
  note C4, 1/4
  note G4, 1/4
}
  }
}
"#,
    )
    .unwrap();

    assert_eq!(ir.tracks[0].events.len(), 2);
}

#[test]
fn max_melodic_leap_rule_can_be_disabled() {
    let ir = compile_source(
        r#"
style Smooth {
  max_melodic_leap: M3
  severity_max_melodic_leap: off
}
score demo style Smooth {
  voice lead {
note C4, 1/4
note G4, 1/4
  }
}
"#,
    )
    .unwrap();

    assert_eq!(ir.tracks[0].events.len(), 2);
}

#[test]
fn rhythm_vocab_rule_fails() {
    let diagnostics = compile_source(
        r#"
style Pulse {
  rhythm_vocab: 1/4 1/8
}
score demo style Pulse {
  voice lead {
note C4, 1/16
  }
}
"#,
    )
    .unwrap_err();

    assert_eq!(diagnostics[0].code, "ML_STYLE_RHYTHM_VOCAB");
}

#[test]
fn override_allows_rhythm_vocab_violation() {
    let ir = compile_source(
        r#"
style Pulse {
  rhythm_vocab: 1/4 1/8
}
score demo style Pulse {
  voice lead {
override rhythm_vocab allow reason "ornamental turn" {
  note C4, 1/16
}
  }
}
"#,
    )
    .unwrap();

    assert_eq!(ir.tracks[0].events.len(), 1);
}

#[test]
fn rhythm_vocab_rule_can_be_disabled() {
    let ir = compile_source(
        r#"
style Pulse {
  rhythm_vocab: 1/4 1/8
  severity_rhythm_vocab: off
}
score demo style Pulse {
  voice lead {
note C4, 1/16
  }
}
"#,
    )
    .unwrap();

    assert_eq!(ir.tracks[0].events.len(), 1);
}

#[test]
fn set_class_vocab_accepts_catalog_set_class() {
    let ir = compile_source(
        r#"
style PostTonal {
  set_class_vocab: 016
}
score demo style PostTonal {
  voice lead {
chord [C4, Db4, Gb4], 1/4
  }
}
"#,
    )
    .unwrap();

    assert_eq!(ir.tracks[0].events.len(), 3);
}

#[test]
fn set_class_vocab_rejects_unlisted_set_class() {
    let diagnostics = compile_source(
        r#"
style PostTonal {
  set_class_vocab: 016
}
score demo style PostTonal {
  voice lead {
chord [C4, E4, G4], 1/4
  }
}
"#,
    )
    .unwrap_err();

    assert_eq!(diagnostics[0].code, "ML_STYLE_SET_CLASS_VOCAB");
    assert_eq!(diagnostics[0].rule.as_deref(), Some("set_class_vocab"));
}

#[test]
fn tuning_system_accepts_catalog_entry() {
    let ir = compile_source(
        r#"
style IntonationPractice {
  tuning_system: just_intonation
}
score demo style IntonationPractice {
  voice lead {
tuning_system just_intonation {
  note D4, 1/4
}
  }
}
"#,
    )
    .unwrap();

    assert_eq!(ir.tracks[0].events.len(), 1);
}

#[test]
fn tuning_system_rejects_unlisted_entry() {
    let diagnostics = compile_source(
        r#"
style IntonationPractice {
  tuning_system: just_intonation
}
score demo style IntonationPractice {
  voice lead {
tuning_system equal_temperament_12 {
  note D4, 1/4
}
  }
}
"#,
    )
    .unwrap_err();

    assert_eq!(diagnostics[0].code, "ML_STYLE_TUNING_SYSTEM");
    assert_eq!(diagnostics[0].rule.as_deref(), Some("tuning_system"));
}

#[test]
fn world_tradition_accepts_catalog_entry() {
    let ir = compile_source(
        r#"
style GlobalPractice {
  world_tradition: maqam
}
score demo style GlobalPractice {
  voice lead {
world_tradition maqam {
  note D4, 1/4
}
  }
}
"#,
    )
    .unwrap();

    assert_eq!(ir.tracks[0].events.len(), 1);
}

#[test]
fn historical_era_accepts_catalog_entry() {
    let ir = compile_source(
        r#"
style PeriodPractice {
  historical_era: baroque
}
score demo style PeriodPractice {
  voice lead {
historical_era baroque {
  note D4, 1/4
}
  }
}
"#,
    )
    .unwrap();

    assert_eq!(ir.tracks[0].events.len(), 1);
}

#[test]
fn historical_era_rejects_unlisted_entry() {
    let diagnostics = compile_source(
        r#"
style PeriodPractice {
  historical_era: baroque
}
score demo style PeriodPractice {
  voice lead {
historical_era jazz {
  note D4, 1/4
}
  }
}
"#,
    )
    .unwrap_err();

    assert_eq!(diagnostics[0].code, "ML_STYLE_HISTORICAL_ERA");
    assert_eq!(diagnostics[0].rule.as_deref(), Some("historical_era"));
}

#[test]
fn harmonic_function_accepts_catalog_entry() {
    let ir = compile_source(
        r#"
style FunctionalPractice {
  harmonic_function: tonic
}
score demo style FunctionalPractice {
  voice lead {
harmonic_function tonic {
  note D4, 1/4
}
  }
}
"#,
    )
    .unwrap();

    assert_eq!(ir.tracks[0].events.len(), 1);
}

#[test]
fn harmonic_function_rejects_unlisted_entry() {
    let diagnostics = compile_source(
        r#"
style FunctionalPractice {
  harmonic_function: tonic
}
score demo style FunctionalPractice {
  voice lead {
harmonic_function dominant {
  note D4, 1/4
}
  }
}
"#,
    )
    .unwrap_err();

    assert_eq!(diagnostics[0].code, "ML_STYLE_HARMONIC_FUNCTION");
    assert_eq!(diagnostics[0].rule.as_deref(), Some("harmonic_function"));
}

#[test]
fn world_tradition_rejects_unlisted_entry() {
    let diagnostics = compile_source(
        r#"
style GlobalPractice {
  world_tradition: maqam
}
score demo style GlobalPractice {
  voice lead {
world_tradition hindustani_raga {
  note D4, 1/4
}
  }
}
"#,
    )
    .unwrap_err();

    assert_eq!(diagnostics[0].code, "ML_STYLE_WORLD_TRADITION");
    assert_eq!(diagnostics[0].rule.as_deref(), Some("world_tradition"));
}

#[test]
fn rhythm_concept_ostinato_accepts_repeated_duration_cell() {
    let ir = compile_source(
        r#"
style Patterned {
  rhythm_concept: ostinato
}
score demo style Patterned {
  voice lead {
note C4, 1/4
note D4, 1/8
note E4, 1/4
note F4, 1/8
  }
}
"#,
    )
    .unwrap();

    assert_eq!(ir.tracks[0].events.len(), 4);
}

#[test]
fn rhythm_concept_ostinato_rejects_non_repeating_rhythm() {
    let diagnostics = compile_source(
        r#"
style Patterned {
  rhythm_concept: ostinato
}
score demo style Patterned {
  voice lead {
note C4, 1/4
note D4, 1/8
note E4, 1/16
note F4, 1/2
  }
}
"#,
    )
    .unwrap_err();

    assert_eq!(diagnostics[0].code, "ML_STYLE_RHYTHM_CONCEPT");
    assert_eq!(diagnostics[0].rule.as_deref(), Some("rhythm_concept"));
}

#[test]
fn rhythm_concept_syncopation_accepts_offbeat_attack() {
    let ir = compile_source(
        r#"
style Syncopated {
  rhythm_concept: syncopation
}
score demo style Syncopated {
  voice lead {
note C4, 1/8
note D4, 1/8
note E4, 1/4
  }
}
"#,
    )
    .unwrap();

    assert_eq!(ir.tracks[0].events.len(), 3);
}

#[test]
fn rhythm_concept_syncopation_rejects_onbeat_attacks() {
    let diagnostics = compile_source(
        r#"
style Syncopated {
  rhythm_concept: syncopation
}
score demo style Syncopated {
  voice lead {
note C4, 1/4
note D4, 1/4
note E4, 1/4
  }
}
"#,
    )
    .unwrap_err();

    assert_eq!(diagnostics[0].code, "ML_STYLE_RHYTHM_CONCEPT");
    assert_eq!(diagnostics[0].rule.as_deref(), Some("rhythm_concept"));
}

#[test]
fn rhythm_concept_hemiola_accepts_three_in_two_pattern() {
    let ir = compile_source(
        r#"
style CrossRhythm {
  rhythm_concept: hemiola
}
score demo style CrossRhythm {
  voice lead {
note C4, 1/6
note D4, 1/6
note E4, 1/6
  }
}
"#,
    )
    .unwrap();

    assert_eq!(ir.tracks[0].events.len(), 3);
}

#[test]
fn rhythm_concept_hemiola_rejects_plain_quarters() {
    let diagnostics = compile_source(
        r#"
style CrossRhythm {
  rhythm_concept: hemiola
}
score demo style CrossRhythm {
  voice lead {
note C4, 1/4
note D4, 1/4
note E4, 1/4
  }
}
"#,
    )
    .unwrap_err();

    assert_eq!(diagnostics[0].code, "ML_STYLE_RHYTHM_CONCEPT");
    assert_eq!(diagnostics[0].rule.as_deref(), Some("rhythm_concept"));
}

#[test]
fn rhythm_concept_swing_accepts_long_short_pair() {
    let ir = compile_source(
        r#"
style SwingFeel {
  rhythm_concept: swing
}
score demo style SwingFeel {
  voice lead {
note C4, 1/6
note D4, 1/12
note E4, 1/4
  }
}
"#,
    )
    .unwrap();

    assert_eq!(ir.tracks[0].events.len(), 3);
}

#[test]
fn rhythm_concept_swing_rejects_even_durations() {
    let diagnostics = compile_source(
        r#"
style SwingFeel {
  rhythm_concept: swing
}
score demo style SwingFeel {
  voice lead {
note C4, 1/8
note D4, 1/8
note E4, 1/4
  }
}
"#,
    )
    .unwrap_err();

    assert_eq!(diagnostics[0].code, "ML_STYLE_RHYTHM_CONCEPT");
    assert_eq!(diagnostics[0].rule.as_deref(), Some("rhythm_concept"));
}

#[test]
fn dynamic_vocab_accepts_catalog_mark() {
    let ir = compile_source(
        r#"
style Quiet {
  dynamic_vocab: p mp
}
score demo style Quiet {
  voice lead {
dynamic p
note C4, 1/4
  }
}
"#,
    )
    .unwrap();

    assert_eq!(ir.tracks[0].events[0].velocity, 48);
}

#[test]
fn dynamic_vocab_rejects_unlisted_mark() {
    let diagnostics = compile_source(
        r#"
style Quiet {
  dynamic_vocab: p mp
}
score demo style Quiet {
  voice lead {
dynamic ff
note C4, 1/4
  }
}
"#,
    )
    .unwrap_err();

    assert_eq!(diagnostics[0].code, "ML_STYLE_DYNAMIC_VOCAB");
    assert_eq!(diagnostics[0].rule.as_deref(), Some("dynamic_vocab"));
}

#[test]
fn articulation_vocab_accepts_catalog_mark() {
    let ir = compile_source(
        r#"
style ShortArticulations {
  articulation_vocab: staccato accent
}
score demo style ShortArticulations {
  voice lead {
articulation staccato
note C4, 1/4
  }
}
"#,
    )
    .unwrap();

    assert_eq!(
        ir.tracks[0].events[0].articulation.as_deref(),
        Some("staccato")
    );
}

#[test]
fn articulation_vocab_rejects_unlisted_mark() {
    let diagnostics = compile_source(
        r#"
style ShortArticulations {
  articulation_vocab: staccato accent
}
score demo style ShortArticulations {
  voice lead {
articulation legato
note C4, 1/4
  }
}
"#,
    )
    .unwrap_err();

    assert_eq!(diagnostics[0].code, "ML_STYLE_ARTICULATION_VOCAB");
    assert_eq!(diagnostics[0].rule.as_deref(), Some("articulation_vocab"));
}

#[test]
fn ornament_accepts_catalog_entry() {
    let ir = compile_source(
        r#"
style Ornamented {
  ornament: trill mordent
}
score demo style Ornamented {
  voice lead {
ornament mordent {
  note C4, 1/16
  note B3, 1/16
  note C4, 1/16
}
  }
}
"#,
    )
    .unwrap();

    assert_eq!(ir.tracks[0].events.len(), 3);
}

#[test]
fn ornament_trill_accepts_alternating_pattern() {
    let ir = compile_source(
        r#"
style Ornamented {
  ornament: trill
}
score demo style Ornamented {
  voice lead {
ornament trill {
  note C4, 1/16
  note D4, 1/16
  note C4, 1/16
  note D4, 1/16
}
  }
}
"#,
    )
    .unwrap();

    assert_eq!(ir.tracks[0].events.len(), 4);
}

#[test]
fn ornament_trill_rejects_non_alternating_pattern() {
    let diagnostics = compile_source(
        r#"
style Ornamented {
  ornament: trill
}
score demo style Ornamented {
  voice lead {
ornament trill {
  note C4, 1/16
  note D4, 1/16
  note E4, 1/16
}
  }
}
"#,
    )
    .unwrap_err();

    assert_eq!(diagnostics[0].code, "ML_STYLE_ORNAMENT");
    assert_eq!(diagnostics[0].rule.as_deref(), Some("ornament"));
}

#[test]
fn ornament_mordent_rejects_non_returning_pattern() {
    let diagnostics = compile_source(
        r#"
style Ornamented {
  ornament: mordent
}
score demo style Ornamented {
  voice lead {
ornament mordent {
  note C4, 1/16
  note B3, 1/16
  note D4, 1/16
}
  }
}
"#,
    )
    .unwrap_err();

    assert_eq!(diagnostics[0].code, "ML_STYLE_ORNAMENT");
    assert_eq!(diagnostics[0].rule.as_deref(), Some("ornament"));
}

#[test]
fn ornament_turn_accepts_neighbor_enclosure() {
    let ir = compile_source(
        r#"
style Ornamented {
  ornament: turn
}
score demo style Ornamented {
  voice lead {
ornament turn {
  note D4, 1/16
  note C4, 1/16
  note B3, 1/16
  note C4, 1/16
}
  }
}
"#,
    )
    .unwrap();

    assert_eq!(ir.tracks[0].events.len(), 4);
}

#[test]
fn ornament_turn_rejects_missing_lower_neighbor() {
    let diagnostics = compile_source(
        r#"
style Ornamented {
  ornament: turn
}
score demo style Ornamented {
  voice lead {
ornament turn {
  note D4, 1/16
  note C4, 1/16
  note E4, 1/16
  note C4, 1/16
}
  }
}
"#,
    )
    .unwrap_err();

    assert_eq!(diagnostics[0].code, "ML_STYLE_ORNAMENT");
    assert_eq!(diagnostics[0].rule.as_deref(), Some("ornament"));
}

#[test]
fn ornament_rejects_unlisted_entry() {
    let diagnostics = compile_source(
        r#"
style Ornamented {
  ornament: trill
}
score demo style Ornamented {
  voice lead {
ornament mordent {
  note C4, 1/4
}
  }
}
"#,
    )
    .unwrap_err();

    assert_eq!(diagnostics[0].code, "ML_STYLE_ORNAMENT");
    assert_eq!(diagnostics[0].rule.as_deref(), Some("ornament"));
}

#[test]
fn non_chord_tone_rule_accepts_listed_tone() {
    let ir = compile_source(
        r#"
style Ornamented {
  non_chord_tone: passing_tone neighbor_tone
}
score demo style Ornamented {
  voice lead {
note C4, 1/8
non_chord_tone passing_tone {
  note D4, 1/8
}
note E4, 1/8
  }
}
"#,
    )
    .unwrap();

    assert_eq!(ir.tracks[0].events.len(), 3);
}

#[test]
fn non_chord_tone_passing_tone_rejects_leap() {
    let diagnostics = compile_source(
        r#"
style Ornamented {
  non_chord_tone: passing_tone
}
score demo style Ornamented {
  voice lead {
note C4, 1/8
non_chord_tone passing_tone {
  note E4, 1/8
}
note F4, 1/8
  }
}
"#,
    )
    .unwrap_err();

    assert_eq!(diagnostics[0].code, "ML_STYLE_NON_CHORD_TONE");
    assert_eq!(diagnostics[0].rule.as_deref(), Some("non_chord_tone"));
}

#[test]
fn non_chord_tone_neighbor_tone_accepts_return() {
    let ir = compile_source(
        r#"
style Ornamented {
  non_chord_tone: neighbor_tone
}
score demo style Ornamented {
  voice lead {
note C4, 1/8
non_chord_tone neighbor_tone {
  note D4, 1/8
}
note C4, 1/8
  }
}
"#,
    )
    .unwrap();

    assert_eq!(ir.tracks[0].events.len(), 3);
}

#[test]
fn non_chord_tone_neighbor_tone_rejects_non_return() {
    let diagnostics = compile_source(
        r#"
style Ornamented {
  non_chord_tone: neighbor_tone
}
score demo style Ornamented {
  voice lead {
note C4, 1/8
non_chord_tone neighbor_tone {
  note D4, 1/8
}
note E4, 1/8
  }
}
"#,
    )
    .unwrap_err();

    assert_eq!(diagnostics[0].code, "ML_STYLE_NON_CHORD_TONE");
    assert_eq!(diagnostics[0].rule.as_deref(), Some("non_chord_tone"));
}

#[test]
fn non_chord_tone_rule_rejects_unlisted_tone() {
    let diagnostics = compile_source(
        r#"
style Ornamented {
  non_chord_tone: passing_tone
}
score demo style Ornamented {
  voice lead {
non_chord_tone neighbor_tone {
  note D4, 1/8
}
  }
}
"#,
    )
    .unwrap_err();

    assert_eq!(diagnostics[0].code, "ML_STYLE_NON_CHORD_TONE");
    assert_eq!(diagnostics[0].rule.as_deref(), Some("non_chord_tone"));
}

#[test]
fn form_rule_accepts_matching_sections() {
    let ir = compile_source(
        r#"
style BinarySong {
  form: binary
}
score demo style BinarySong {
  voice lead {
section A {
  note C4, 1/4
}
section B {
  note D4, 1/4
}
  }
}
"#,
    )
    .unwrap();

    assert_eq!(ir.markers.len(), 2);
    assert_eq!(ir.markers[0].label, "A");
    assert_eq!(ir.markers[1].label, "B");
}

#[test]
fn form_rule_rejects_wrong_section_pattern() {
    let diagnostics = compile_source(
        r#"
style TernarySong {
  form: ternary
}
score demo style TernarySong {
  voice lead {
section A {
  note C4, 1/4
}
section B {
  note D4, 1/4
}
  }
}
"#,
    )
    .unwrap_err();

    assert_eq!(diagnostics[0].code, "ML_STYLE_FORM");
    assert_eq!(diagnostics[0].rule.as_deref(), Some("form"));
}

#[test]
fn tempo_range_rule_fails() {
    let diagnostics = compile_source(
        r#"
style Slow {
  tempo_range: 40..80
}
score demo {
  tempo 120
  voice lead {
note C4, 1/4
  }
}
"#,
    )
    .unwrap_err();

    assert_eq!(diagnostics[0].code, "ML_STYLE_TEMPO_RANGE");
}

#[test]
fn instrument_range_rule_fails() {
    let diagnostics = compile_source(
        r#"
style Tiny {
  instrument_range: 40 C4 C5
}
score demo {
  voice lead {
program 40
note C6, 1/4
  }
}
"#,
    )
    .unwrap_err();

    assert_eq!(diagnostics[0].code, "ML_STYLE_INSTRUMENT_RANGE");
}

#[test]
fn voice_crossing_rule_fails() {
    let diagnostics = compile_source(
        r#"
score demo {
  voice upper {
note C4, 1/4
  }
  voice lower {
note E4, 1/4
  }
}
"#,
    )
    .unwrap_err();

    assert_eq!(diagnostics[0].code, "ML_STYLE_VOICE_CROSSING");
}

#[test]
fn texture_monophony_rule_fails_for_multiple_tracks() {
    let diagnostics = compile_source(
        r#"
style Solo {
  texture: monophony
  severity_voice_crossing: off
}
score demo style Solo {
  voice a { note C4, 1/4 }
  voice b { note E4, 1/4 }
}
"#,
    )
    .unwrap_err();

    assert_eq!(diagnostics[0].code, "ML_STYLE_TEXTURE");
}

#[test]
fn texture_polyphony_rule_accepts_multiple_tracks() {
    let ir = compile_source(
        r#"
style Poly {
  texture: polyphony
  severity_voice_crossing: off
}
score demo style Poly {
  voice a { note C4, 1/4 }
  voice b { note E4, 1/4 }
}
"#,
    )
    .unwrap();

    assert_eq!(ir.tracks.len(), 2);
}

#[test]
fn texture_homophony_rule_fails_for_different_attack_grid() {
    let diagnostics = compile_source(
        r#"
style Hymn {
  texture: homophony
  severity_voice_crossing: off
}
score demo style Hymn {
  voice a {
note C4, 1/4
note D4, 1/4
  }
  voice b {
note E4, 1/2
  }
}
"#,
    )
    .unwrap_err();

    assert_eq!(diagnostics[0].code, "ML_STYLE_TEXTURE");
}

#[test]
fn texture_heterophony_accepts_shared_melodic_grid() {
    let ir = compile_source(
        r#"
style SharedMelody {
  texture: heterophony
  severity_voice_crossing: off
}
score demo style SharedMelody {
  voice a {
note C4, 1/4
note D4, 1/4
  }
  voice b {
note C4, 1/4
note E4, 1/4
  }
}
"#,
    )
    .unwrap();

    assert_eq!(ir.tracks.len(), 2);
}

#[test]
fn texture_heterophony_rejects_single_voice() {
    let diagnostics = compile_source(
        r#"
style SharedMelody {
  texture: heterophony
}
score demo style SharedMelody {
  voice a {
note C4, 1/4
note D4, 1/4
  }
}
"#,
    )
    .unwrap_err();

    assert_eq!(diagnostics[0].code, "ML_STYLE_TEXTURE");
    assert_eq!(diagnostics[0].rule.as_deref(), Some("texture"));
}

#[test]
fn texture_heterophony_rejects_different_event_counts() {
    let diagnostics = compile_source(
        r#"
style SharedMelody {
  texture: heterophony
  severity_voice_crossing: off
}
score demo style SharedMelody {
  voice a {
note C4, 1/4
note D4, 1/4
  }
  voice b {
note C4, 1/2
  }
}
"#,
    )
    .unwrap_err();

    assert_eq!(diagnostics[0].code, "ML_STYLE_TEXTURE");
    assert_eq!(diagnostics[0].rule.as_deref(), Some("texture"));
}

#[test]
fn override_allows_texture_violation() {
    let ir = compile_source(
        r#"
style Solo {
  texture: monophony
  severity_voice_crossing: off
}
score demo style Solo {
  override texture allow reason "brief divisi" {
voice a { note C4, 1/4 }
voice b { note E4, 1/4 }
  }
}
"#,
    )
    .unwrap();

    assert_eq!(ir.tracks.len(), 2);
}

#[test]
fn texture_rule_can_be_disabled() {
    let ir = compile_source(
        r#"
style Solo {
  texture: monophony
  severity_texture: off
  severity_voice_crossing: off
}
score demo style Solo {
  voice a { note C4, 1/4 }
  voice b { note E4, 1/4 }
}
"#,
    )
    .unwrap();

    assert_eq!(ir.tracks.len(), 2);
}

#[test]
fn harmonic_progression_rule_accepts_sequence() {
    let ir = compile_source(
        r#"
style Functional {
  harmonic_progression: tonic predominant dominant tonic
}
score demo style Functional {
  voice chordal {
chord [C4, E4, G4], 1/4
chord [F4, A4, C5], 1/4
chord [G4, B4, D5], 1/4
chord [C4, E4, G4], 1/4
  }
}
"#,
    )
    .unwrap();

    assert_eq!(ir.tracks[0].events.len(), 12);
}

#[test]
fn harmonic_progression_rule_accepts_secondary_dominant() {
    let ir = compile_source(
        r#"
style Functional {
  harmonic_progression: tonic secondary_dominant dominant tonic
}
score demo style Functional {
  voice chordal {
chord [C4, E4, G4], 1/4
chord [D4, F#4, A4], 1/4
chord [G4, B4, D5], 1/4
chord [C4, E4, G4], 1/4
  }
}
"#,
    )
    .unwrap();

    assert_eq!(ir.tracks[0].events.len(), 12);
}

#[test]
fn harmonic_progression_rule_accepts_submediant() {
    let ir = compile_source(
        r#"
style Functional {
  harmonic_progression: tonic dominant submediant
}
score demo style Functional {
  voice chordal {
chord [C4, E4, G4], 1/4
chord [G4, B4, D5], 1/4
chord [A4, C5, E5], 1/4
  }
}
"#,
    )
    .unwrap();

    assert_eq!(ir.tracks[0].events.len(), 9);
}

#[test]
fn harmonic_progression_rule_fails() {
    let diagnostics = compile_source(
        r#"
style Functional {
  harmonic_progression: tonic predominant dominant tonic
}
score demo style Functional {
  voice chordal {
chord [C4, E4, G4], 1/4
chord [G4, B4, D5], 1/4
chord [F4, A4, C5], 1/4
chord [C4, E4, G4], 1/4
  }
}
"#,
    )
    .unwrap_err();

    assert_eq!(diagnostics[0].code, "ML_STYLE_HARMONIC_PROGRESSION");
}

#[test]
fn override_allows_harmonic_progression_violation() {
    let ir = compile_source(
        r#"
style Functional {
  harmonic_progression: tonic predominant dominant tonic
}
score demo style Functional {
  override harmonic_progression allow reason "nonfunctional progression" {
voice chordal {
  chord [C4, E4, G4], 1/4
  chord [G4, B4, D5], 1/4
  chord [F4, A4, C5], 1/4
  chord [C4, E4, G4], 1/4
}
  }
}
"#,
    )
    .unwrap();

    assert_eq!(ir.tracks[0].events.len(), 12);
}

#[test]
fn harmonic_progression_rule_can_be_disabled() {
    let ir = compile_source(
        r#"
style Functional {
  harmonic_progression: tonic predominant dominant tonic
  severity_harmonic_progression: off
}
score demo style Functional {
  voice chordal {
chord [C4, E4, G4], 1/4
chord [G4, B4, D5], 1/4
chord [F4, A4, C5], 1/4
chord [C4, E4, G4], 1/4
  }
}
"#,
    )
    .unwrap();

    assert_eq!(ir.tracks[0].events.len(), 12);
}

#[test]
fn cadence_rule_accepts_authentic_ending() {
    let ir = compile_source(
        r#"
style ClassicalCadence {
  cadence: authentic
}
score demo style ClassicalCadence {
  voice chordal {
chord [G4, B4, D5], 1/4
chord [C4, E4, G4], 1/4
  }
}
"#,
    )
    .unwrap();

    assert_eq!(ir.tracks[0].events.len(), 6);
}

#[test]
fn cadence_rule_fails() {
    let diagnostics = compile_source(
        r#"
style ClassicalCadence {
  cadence: authentic
}
score demo style ClassicalCadence {
  voice chordal {
chord [F4, A4, C5], 1/4
chord [C4, E4, G4], 1/4
  }
}
"#,
    )
    .unwrap_err();

    assert_eq!(diagnostics[0].code, "ML_STYLE_CADENCE");
}

#[test]
fn cadence_rule_accepts_plagal_cadence() {
    let ir = compile_source(
        r#"
style ClassicalCadence {
  cadence: plagal
}
score demo style ClassicalCadence {
  voice chordal {
chord [F4, A4, C5], 1/4
chord [C4, E4, G4], 1/4
  }
}
"#,
    )
    .unwrap();

    assert_eq!(ir.tracks[0].events.len(), 6);
}

#[test]
fn cadence_rule_rejects_plagal_without_subdominant() {
    let diagnostics = compile_source(
        r#"
style ClassicalCadence {
  cadence: plagal
}
score demo style ClassicalCadence {
  voice chordal {
chord [G4, B4, D5], 1/4
chord [C4, E4, G4], 1/4
  }
}
"#,
    )
    .unwrap_err();

    assert_eq!(diagnostics[0].code, "ML_STYLE_CADENCE");
}

#[test]
fn cadence_rule_accepts_deceptive_cadence() {
    let ir = compile_source(
        r#"
style ClassicalCadence {
  cadence: deceptive
}
score demo style ClassicalCadence {
  voice chordal {
chord [G4, B4, D5], 1/4
chord [A4, C5, E5], 1/4
  }
}
"#,
    )
    .unwrap();

    assert_eq!(ir.tracks[0].events.len(), 6);
}

#[test]
fn cadence_rule_rejects_deceptive_without_submediant() {
    let diagnostics = compile_source(
        r#"
style ClassicalCadence {
  cadence: deceptive
}
score demo style ClassicalCadence {
  voice chordal {
chord [G4, B4, D5], 1/4
chord [C4, E4, G4], 1/4
  }
}
"#,
    )
    .unwrap_err();

    assert_eq!(diagnostics[0].code, "ML_STYLE_CADENCE");
}

#[test]
fn cadence_rule_accepts_half_cadence() {
    let ir = compile_source(
        r#"
style ClassicalCadence {
  cadence: half
}
score demo style ClassicalCadence {
  voice chordal {
chord [C4, E4, G4], 1/4
chord [G4, B4, D5], 1/4
  }
}
"#,
    )
    .unwrap();

    assert_eq!(ir.tracks[0].events.len(), 6);
}

#[test]
fn cadence_rule_accepts_any_configured_candidate() {
    let ir = compile_source(
        r#"
style FlexibleCadence {
  cadence: authentic plagal deceptive
}
score demo style FlexibleCadence {
  voice chordal {
chord [F4, A4, C5], 1/4
chord [C4, E4, G4], 1/4
  }
}
"#,
    )
    .unwrap();

    assert_eq!(ir.tracks[0].events.len(), 6);
}

#[test]
fn cadence_rule_rejects_when_no_candidate_matches() {
    let diagnostics = compile_source(
        r#"
style FlexibleCadence {
  cadence: authentic deceptive
}
score demo style FlexibleCadence {
  voice chordal {
chord [F4, A4, C5], 1/4
chord [C4, E4, G4], 1/4
  }
}
"#,
    )
    .unwrap_err();

    assert_eq!(diagnostics[0].code, "ML_STYLE_CADENCE");
    assert_eq!(diagnostics[0].rule.as_deref(), Some("cadence"));
}

#[test]
fn cadence_rule_rejects_half_cadence_without_final_dominant() {
    let diagnostics = compile_source(
        r#"
style ClassicalCadence {
  cadence: half
}
score demo style ClassicalCadence {
  voice chordal {
chord [G4, B4, D5], 1/4
chord [C4, E4, G4], 1/4
  }
}
"#,
    )
    .unwrap_err();

    assert_eq!(diagnostics[0].code, "ML_STYLE_CADENCE");
    assert_eq!(diagnostics[0].rule.as_deref(), Some("cadence"));
}

#[test]
fn override_allows_cadence_violation() {
    let ir = compile_source(
        r#"
style ClassicalCadence {
  cadence: authentic
}
score demo style ClassicalCadence {
  override cadence allow reason "open ending" {
voice chordal {
  chord [F4, A4, C5], 1/4
  chord [C4, E4, G4], 1/4
}
  }
}
"#,
    )
    .unwrap();

    assert_eq!(ir.tracks[0].events.len(), 6);
}

#[test]
fn cadence_rule_can_be_disabled() {
    let ir = compile_source(
        r#"
style ClassicalCadence {
  cadence: authentic
  severity_cadence: off
}
score demo style ClassicalCadence {
  voice chordal {
chord [F4, A4, C5], 1/4
chord [C4, E4, G4], 1/4
  }
}
"#,
    )
    .unwrap();

    assert_eq!(ir.tracks[0].events.len(), 6);
}

#[test]
fn contrapuntal_motion_rule_fails() {
    let diagnostics = compile_source(
        r#"
style Counterpoint {
  contrapuntal_motion: contrary oblique
}
score demo style Counterpoint {
  voice upper {
note C5, 1/4
note D5, 1/4
  }
  voice lower {
note C4, 1/4
note D4, 1/4
  }
}
"#,
    )
    .unwrap_err();

    assert_eq!(diagnostics[0].code, "ML_STYLE_CONTRAPUNTAL_MOTION");
}

#[test]
fn override_allows_contrapuntal_motion_violation() {
    let ir = compile_source(
        r#"
style Counterpoint {
  contrapuntal_motion: contrary oblique
}
score demo style Counterpoint {
  override contrapuntal_motion allow reason "sequence" {
voice upper {
  note C5, 1/4
  note D5, 1/4
}
voice lower {
  note C4, 1/4
  note D4, 1/4
}
  }
}
"#,
    )
    .unwrap();

    assert_eq!(ir.tracks.len(), 2);
}

#[test]
fn contrapuntal_motion_rule_can_be_disabled() {
    let ir = compile_source(
        r#"
style Counterpoint {
  contrapuntal_motion: contrary oblique
  severity_contrapuntal_motion: off
}
score demo style Counterpoint {
  voice upper {
note C5, 1/4
note D5, 1/4
  }
  voice lower {
note C4, 1/4
note D4, 1/4
  }
}
"#,
    )
    .unwrap();

    assert_eq!(ir.tracks.len(), 2);
}

#[test]
fn parallel_fifths_rule_fails() {
    let diagnostics = compile_source(
        r#"
score demo {
  voice upper {
note G4, 1/4
note A4, 1/4
  }
  voice lower {
note C4, 1/4
note D4, 1/4
  }
}
"#,
    )
    .unwrap_err();

    assert_eq!(diagnostics[0].code, "ML_STYLE_PARALLEL_FIFTHS");
}

#[test]
fn score_selects_named_style() {
    let ir = compile_source(
        r#"
style Classical {
  scale: C D E F G A B
}
style Sparse {
  scale: C E G
}
score demo style Sparse {
  voice lead {
note E4, 1/4
  }
}
"#,
    )
    .unwrap();

    assert_eq!(ir.tracks[0].events.len(), 1);
}

#[test]
fn score_can_select_builtin_style_without_local_declaration() {
    let ir = compile_source(
        r#"
score demo style Jazz {
  voice lead {
note F#4, 1/4
  }
}
"#,
    )
    .unwrap();

    assert_eq!(ir.tracks[0].events.len(), 1);
}

#[test]
fn unknown_score_style_fails() {
    let diagnostics = compile_source(
        r#"
style Classical
score demo style Missing {
  voice lead {
note C4, 1/4
  }
}
"#,
    )
    .unwrap_err();

    assert_eq!(diagnostics[0].code, "ML_STYLE_UNKNOWN_NAME");
}

#[test]
fn diagnose_source_reports_non_blocking_warning() {
    let diagnostics = diagnose_source(
        r#"
style Soft {
  scale: C E G
  severity_scale: warning
}
score demo style Soft {
  voice lead {
note D4, 1/4
  }
}
"#,
    );

    assert_eq!(diagnostics[0].code, "ML_STYLE_SCALE");
    assert_eq!(diagnostics[0].severity, Severity::Warning);
}

#[test]
fn style_rule_warning_does_not_block_compile() {
    let compilation = compile_source_with_diagnostics(
        r#"
style Soft {
  scale: C E G
  severity_scale: warning
}
score demo style Soft {
  voice lead {
note D4, 1/4
  }
}
"#,
    )
    .unwrap();

    assert_eq!(compilation.ir.tracks[0].events.len(), 1);
    assert_eq!(compilation.diagnostics[0].severity, Severity::Warning);
}

#[test]
fn style_rule_off_suppresses_rule() {
    let ir = compile_source(
        r#"
style Open {
  scale: C E G
  severity_scale: off
}
score demo style Open {
  voice lead {
note D4, 1/4
  }
}
"#,
    )
    .unwrap();

    assert_eq!(ir.tracks[0].events.len(), 1);
}

#[test]
fn style_inherits_parent_rules() {
    let diagnostics = compile_source(
        r#"
style Parent {
  scale: C E G
}
style Child extends Parent {
  tempo_range: 60..120
}
score demo style Child {
  tempo 90
  voice lead {
note D4, 1/4
  }
}
"#,
    )
    .unwrap_err();

    assert_eq!(diagnostics[0].code, "ML_STYLE_SCALE");
    assert_eq!(diagnostics[0].style.as_deref(), Some("Child"));
}

#[test]
fn style_child_overrides_parent_rule_inputs() {
    let ir = compile_source(
        r#"
style Parent {
  scale: C E G
}
style Child extends Parent {
  scale: C D E F G A B
}
score demo style Child {
  voice lead {
note D4, 1/4
  }
}
"#,
    )
    .unwrap();

    assert_eq!(ir.tracks[0].events.len(), 1);
}

#[test]
fn style_inheritance_cycle_fails() {
    let diagnostics = compile_source(
        r#"
style A extends B
style B extends A
score demo style A {
  voice lead {
note C4, 1/4
  }
}
"#,
    )
    .unwrap_err();

    assert_eq!(diagnostics[0].code, "ML_STYLE_INHERITANCE_CYCLE");
}

#[test]
fn local_style_scope_switches_rules() {
    let ir = compile_source(
        r#"
style Classical {
  scale: C D E F G A B
}
style Sparse {
  scale: C E G
}
score demo style Classical {
  voice lead {
with style Sparse {
  note E4, 1/4
}
note D4, 1/4
  }
}
"#,
    )
    .unwrap();

    assert_eq!(ir.tracks[0].events.len(), 2);
}

#[test]
fn local_style_scope_enforces_selected_style() {
    let diagnostics = compile_source(
        r#"
style Classical {
  scale: C D E F G A B
}
style Sparse {
  scale: C E G
}
score demo style Classical {
  voice lead {
with style Sparse {
  note D4, 1/4
}
  }
}
"#,
    )
    .unwrap_err();

    assert_eq!(diagnostics[0].code, "ML_STYLE_SCALE");
    assert_eq!(diagnostics[0].style.as_deref(), Some("Sparse"));
}

#[test]
fn dynamic_and_velocity_set_following_event_velocity() {
    let ir = compile_source(
        r#"
score demo {
  voice lead {
dynamic f
note C4, 1/4
velocity 32
note D4, 1/4
chord [E4, G4], 1/4
  }
}
"#,
    )
    .unwrap();

    assert_eq!(ir.tracks[0].events[0].velocity, 96);
    assert_eq!(ir.tracks[0].events[1].velocity, 32);
    assert_eq!(ir.tracks[0].events[2].velocity, 32);
    assert_eq!(ir.tracks[0].events[3].velocity, 32);
}

#[test]
fn articulation_sets_following_event_metadata() {
    let ir = compile_source(
        r#"
score demo {
  voice lead {
articulation staccato
note C4, 1/4
chord [E4, G4], 1/4
  }
}
"#,
    )
    .unwrap();

    assert_eq!(
        ir.tracks[0].events[0].articulation.as_deref(),
        Some("staccato")
    );
    assert_eq!(
        ir.tracks[0].events[1].articulation.as_deref(),
        Some("staccato")
    );
    assert_eq!(
        ir.tracks[0].events[2].articulation.as_deref(),
        Some("staccato")
    );
}

#[test]
fn child_style_settings_override_parent_settings() {
    let source = "style Base {\n  tempo_range: 60..100\n  scale: C D E\n}\nstyle Child extends Base {\n  tempo_range: 70..90\n}\nscore demo style Child {\n}";
    let program = musiclang::parser::parse_source(source).unwrap();
    let catalog = musiclang::theory::theory_catalog();
    let child = program.styles.iter().find(|s| s.name == "Child").unwrap();
    let (context, diagnostics) =
        musiclang::stylebuild::style_from_program(&catalog, &program, child);
    assert!(diagnostics.is_empty());
    assert_eq!(context.name, "Child");
    assert_eq!(context.tempo_range, Some((70, 90)));
    assert_eq!(context.allowed_pitch_classes.map(|v| v.len()), Some(3));
}

#[test]
fn style_inheritance_cycle_is_reported_once() {
    let source = "style A extends B {\n  scale: C\n}\nstyle B extends A {\n  scale: D\n}\nscore demo style A {\n}";
    let program = musiclang::parser::parse_source(source).unwrap();
    let catalog = musiclang::theory::theory_catalog();
    let a = program.styles.iter().find(|s| s.name == "A").unwrap();
    let (context, diagnostics) = musiclang::stylebuild::style_from_program(&catalog, &program, a);
    assert_eq!(context.name, "A");
    assert_eq!(diagnostics.len(), 1);
    assert_eq!(diagnostics[0].code, "ML_STYLE_INHERITANCE_CYCLE");
}

#[test]
fn warning_severity_reports_rule_as_warning() {
    let source = "style Loose {\n  scale: C D E\n  severity_scale: warning\n}\nscore demo style Loose {\n  voice lead {\n    note F4, 1/4\n  }\n}";
    let compilation = compile_source_with_diagnostics(source).unwrap();
    assert_eq!(compilation.diagnostics.len(), 1);
    assert_eq!(compilation.diagnostics[0].code, "ML_STYLE_SCALE");
    assert_eq!(compilation.diagnostics[0].severity, Severity::Warning);
}

#[test]
fn rule_turned_off_reports_nothing() {
    let source = "style Loose {\n  scale: C D E\n  severity_scale: off\n}\nscore demo style Loose {\n  voice lead {\n    note F4, 1/4\n  }\n}";
    let compilation = compile_source_with_diagnostics(source).unwrap();
    assert!(compilation.diagnostics.is_empty());
}

#[test]
fn for_loop_runs_its_body_once_for_each_value() {
    let ir = compile_source(
        "score demo {\n  voice lead {\n    for i in 2..5 {\n      note C4, 1/4\n    }\n  }\n}\n",
    )
    .unwrap();
    let starts: Vec<u32> = ir.tracks[0].events.iter().map(|e| e.start_tick).collect();
    assert_eq!(starts, vec![0, 480, 960]);

    let empty = compile_source(
        "score demo {\n  voice lead {\n    for i in 5..2 {\n      note C4, 1/4\n    }\n    note D4, 1/4\n  }\n}\n",
    )
    .unwrap();
    assert_eq!(empty.tracks[0].events.len(), 1);
}
