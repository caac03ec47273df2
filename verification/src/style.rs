use vstd::prelude::*;

use crate::diagnostic::RuleSeverity;
use crate::ir::Meter;
use crate::music::{Duration, Interval, Pitch, PitchClass};
use crate::text::{owned, str_eq, views};

verus! {

/// The rules that a style enforces.
#[derive(Debug, Clone, PartialEq, Eq)]
pub struct StyleContext {
    pub name: String,
    pub allowed_pitch_classes: Option<Vec<PitchClass>>,
    pub chord_vocab: Vec<Vec<PitchClass>>,
    pub chord_quality_vocab: Vec<String>,
    pub set_class_vocab: Vec<String>,
    pub rhythm_vocab: Vec<Duration>,
    pub rhythm_concepts: Vec<String>,
    pub dynamic_vocab: Vec<String>,
    pub articulation_vocab: Vec<String>,
    pub ornaments: Vec<String>,
    pub non_chord_tones: Vec<String>,
    pub tuning_systems: Vec<String>,
    pub world_traditions: Vec<String>,
    pub historical_eras: Vec<String>,
    pub harmonic_functions: Vec<String>,
    pub max_melodic_leap: Option<Interval>,
    pub max_voice_spacing: Option<Interval>,
    pub contrapuntal_motion: Vec<String>,
    pub cadences: Vec<String>,
    pub harmonic_progression: Vec<String>,
    pub texture: Option<String>,
    pub form: Option<String>,
    pub meter: Option<Meter>,
    pub meter_catalog: Vec<String>,
    pub tempo_range: Option<(u16, u16)>,
    pub instrument_ranges: Vec<InstrumentRange>,
    pub theory: Vec<TheoryReference>,
    pub custom_theory: Vec<CustomTheoryDomain>,
    pub custom_rules: Vec<CustomStyleRule>,
    pub rule_severity: Vec<(String, RuleSeverity)>,
}

/// A rule id that a style declares with `rule_<id>: description`.
#[derive(Debug, Clone, PartialEq, Eq)]
pub struct CustomStyleRule {
    pub id: String,
    pub description: String,
}

/// A reference from a style to a theory-catalog entry.
#[derive(Debug, Clone, PartialEq, Eq)]
pub struct TheoryReference {
    pub domain: String,
    pub entry_id: String,
}

/// A project-local theory domain declared with `theory_<name>: entries`.
#[derive(Debug, Clone, PartialEq, Eq)]
pub struct CustomTheoryDomain {
    pub name: String,
    pub entries: Vec<String>,
}

/// The playable range of a MIDI program.
#[derive(Debug, Clone, PartialEq, Eq)]
pub struct InstrumentRange {
    pub program: u8,
    pub low: Pitch,
    pub high: Pitch,
}

/// A built-in style's id, name and description.
#[derive(Debug, Clone, Copy, PartialEq, Eq)]
pub struct StyleDescriptor {
    pub id: &'static str,
    pub name: &'static str,
    pub description: &'static str,
}

/// The ids of the built-in styles.
pub open spec fn built_in_ids() -> Seq<Seq<char>> {
    seq!["Classical"@, "Modal"@, "Jazz"@, "Minimalist"@]
}

/// The built-in styles.
pub fn built_in_styles() -> (r: Vec<StyleDescriptor>)
    ensures
        r@.len() == 4,
        forall|i: int| 0 <= i < 4 ==> (#[trigger] r@[i]).id@ == built_in_ids()[i],
        r@.map_values(|d: StyleDescriptor| (d.name@, d.description@)) == seq![
            (
                "Classical common-practice"@,
                "C-major common-practice checks for scale, triads, meter, tempo, rhythm, and voice-leading defaults"@,
            ),
            (
                "Modal open texture"@,
                "Dorian-centered modal writing with flexible meter and sparse harmonic constraints"@,
            ),
            (
                "Jazz lead-sheet"@,
                "Extended chromatic pitch set with seventh-chord vocabulary, syncopated rhythms, and relaxed motion rules"@,
            ),
            (
                "Minimalist pulse"@,
                "Constrained pitch vocabulary, steady rhythmic cells, and narrow melodic motion for pattern-based music"@,
            ),
        ],
{
    let r = vec![
        StyleDescriptor {
            id: "Classical",
            name: "Classical common-practice",
            description: "C-major common-practice checks for scale, triads, meter, tempo, rhythm, and voice-leading defaults",
        },
        StyleDescriptor {
            id: "Modal",
            name: "Modal open texture",
            description: "Dorian-centered modal writing with flexible meter and sparse harmonic constraints",
        },
        StyleDescriptor {
            id: "Jazz",
            name: "Jazz lead-sheet",
            description: "Extended chromatic pitch set with seventh-chord vocabulary, syncopated rhythms, and relaxed motion rules",
        },
        StyleDescriptor {
            id: "Minimalist",
            name: "Minimalist pulse",
            description: "Constrained pitch vocabulary, steady rhythmic cells, and narrow melodic motion for pattern-based music",
        },
    ];
    assert(r@.map_values(|d: StyleDescriptor| (d.name@, d.description@)) =~~= seq![
        (
            "Classical common-practice"@,
            "C-major common-practice checks for scale, triads, meter, tempo, rhythm, and voice-leading defaults"@,
        ),
        (
            "Modal open texture"@,
            "Dorian-centered modal writing with flexible meter and sparse harmonic constraints"@,
        ),
        (
            "Jazz lead-sheet"@,
            "Extended chromatic pitch set with seventh-chord vocabulary, syncopated rhythms, and relaxed motion rules"@,
        ),
        (
            "Minimalist pulse"@,
            "Constrained pitch vocabulary, steady rhythmic cells, and narrow melodic motion for pattern-based music"@,
        ),
    ]);
    r
}

/// The severity recorded for a rule, looked up from the last matching entry.
pub open spec fn severity_lookup(entries: Seq<(String, RuleSeverity)>, rule: Seq<char>) -> Option<
    RuleSeverity,
>
    decreases entries.len(),
{
    if entries.len() == 0 {
        None
    } else if entries.last().0@ == rule {
        Some(entries.last().1)
    } else {
        severity_lookup(entries.drop_last(), rule)
    }
}

/// A style with no rules beyond the given name.
pub open spec fn is_empty_style(s: StyleContext) -> bool {
    &&& s.allowed_pitch_classes is None
    &&& s.chord_vocab@.len() == 0
    &&& s.chord_quality_vocab@.len() == 0
    &&& s.set_class_vocab@.len() == 0
    &&& s.rhythm_vocab@.len() == 0
    &&& s.rhythm_concepts@.len() == 0
    &&& s.dynamic_vocab@.len() == 0
    &&& s.articulation_vocab@.len() == 0
    &&& s.ornaments@.len() == 0
    &&& s.non_chord_tones@.len() == 0
    &&& s.tuning_systems@.len() == 0
    &&& s.world_traditions@.len() == 0
    &&& s.historical_eras@.len() == 0
    &&& s.harmonic_functions@.len() == 0
    &&& s.max_melodic_leap is None
    &&& s.max_voice_spacing is None
    &&& s.contrapuntal_motion@.len() == 0
    &&& s.cadences@.len() == 0
    &&& s.harmonic_progression@.len() == 0
    &&& s.texture is None
    &&& s.form is None
    &&& s.meter is None
    &&& s.meter_catalog@.len() == 0
    &&& s.tempo_range is None
    &&& s.instrument_ranges@.len() == 0
    &&& s.theory@.len() == 0
    &&& s.custom_theory@.len() == 0
    &&& s.custom_rules@.len() == 0
    &&& s.rule_severity@.len() == 0
}

/// Whether a style admits a pitch class: it has no scale, or the class is in its scale.
pub open spec fn allows_class(s: StyleContext, class: PitchClass) -> bool {
    match s.allowed_pitch_classes {
        None => true,
        Some(v) => v@.contains(class),
    }
}

/// What a style context says, as mathematical values: the allowed pitch classes as
/// a set, word lists as texts, durations as reduced fractions, intervals as
/// semitones, and instrument ranges by program and lowest and highest pitch.
#[verifier::ext_equal]
pub struct StyleModel {
    pub allowed_pitch_classes: Option<Set<PitchClass>>,
    pub chord_vocab: Seq<Seq<PitchClass>>,
    pub chord_quality_vocab: Seq<Seq<char>>,
    pub set_class_vocab: Seq<Seq<char>>,
    pub rhythm_vocab: Seq<(nat, nat)>,
    pub rhythm_concepts: Seq<Seq<char>>,
    pub dynamic_vocab: Seq<Seq<char>>,
    pub articulation_vocab: Seq<Seq<char>>,
    pub ornaments: Seq<Seq<char>>,
    pub non_chord_tones: Seq<Seq<char>>,
    pub tuning_systems: Seq<Seq<char>>,
    pub world_traditions: Seq<Seq<char>>,
    pub historical_eras: Seq<Seq<char>>,
    pub harmonic_functions: Seq<Seq<char>>,
    pub max_melodic_leap: Option<int>,
    pub max_voice_spacing: Option<int>,
    pub contrapuntal_motion: Seq<Seq<char>>,
    pub cadences: Seq<Seq<char>>,
    pub harmonic_progression: Seq<Seq<char>>,
    pub texture: Option<Seq<char>>,
    pub form: Option<Seq<char>>,
    pub meter: Option<Meter>,
    pub meter_catalog: Seq<Seq<char>>,
    pub tempo_range: Option<(u16, u16)>,
    pub instrument_ranges: Seq<(int, (PitchClass, i8), (PitchClass, i8))>,
    pub theory: Seq<(Seq<char>, Seq<char>)>,
    pub custom_theory: Seq<(Seq<char>, Seq<Seq<char>>)>,
    pub custom_rules: Seq<(Seq<char>, Seq<char>)>,
    pub rule_severity: Seq<(Seq<char>, RuleSeverity)>,
}

/// The text of an optional string.
pub open spec fn text_of(value: Option<String>) -> Option<Seq<char>> {
    match value {
        Some(v) => Some(v@),
        None => None,
    }
}

/// The semitones of an optional interval.
pub open spec fn semitones_of(value: Option<Interval>) -> Option<int> {
    match value {
        Some(i) => Some(i.semitones_spec()),
        None => None,
    }
}

/// The model of a style context.
pub open spec fn style_model(c: StyleContext) -> StyleModel {
    StyleModel {
        allowed_pitch_classes: match c.allowed_pitch_classes {
            Some(v) => Some(v@.to_set()),
            None => None,
        },
        chord_vocab: c.chord_vocab@.map_values(|v: Vec<PitchClass>| v@),
        chord_quality_vocab: views(c.chord_quality_vocab@),
        set_class_vocab: views(c.set_class_vocab@),
        rhythm_vocab: c.rhythm_vocab@.map_values(
            |d: Duration| (d.numerator_spec(), d.denominator_spec()),
        ),
        rhythm_concepts: views(c.rhythm_concepts@),
        dynamic_vocab: views(c.dynamic_vocab@),
        articulation_vocab: views(c.articulation_vocab@),
        ornaments: views(c.ornaments@),
        non_chord_tones: views(c.non_chord_tones@),
        tuning_systems: views(c.tuning_systems@),
        world_traditions: views(c.world_traditions@),
        historical_eras: views(c.historical_eras@),
        harmonic_functions: views(c.harmonic_functions@),
        max_melodic_leap: semitones_of(c.max_melodic_leap),
        max_voice_spacing: semitones_of(c.max_voice_spacing),
        contrapuntal_motion: views(c.contrapuntal_motion@),
        cadences: views(c.cadences@),
        harmonic_progression: views(c.harmonic_progression@),
        texture: text_of(c.texture),
        form: text_of(c.form),
        meter: c.meter,
        meter_catalog: views(c.meter_catalog@),
        tempo_range: c.tempo_range,
        instrument_ranges: c.instrument_ranges@.map_values(
            |r: InstrumentRange|
                (
                    r.program as int,
                    (r.low.class_spec(), r.low.octave_spec()),
                    (r.high.class_spec(), r.high.octave_spec()),
                ),
        ),
        theory: c.theory@.map_values(|t: TheoryReference| (t.domain@, t.entry_id@)),
        custom_theory: c.custom_theory@.map_values(
            |d: CustomTheoryDomain| (d.name@, views(d.entries@)),
        ),
        custom_rules: c.custom_rules@.map_values(|r: CustomStyleRule| (r.id@, r.description@)),
        rule_severity: c.rule_severity@.map_values(|e: (String, RuleSeverity)| (e.0@, e.1)),
    }
}

/// A style that sets nothing.
pub open spec fn empty_model() -> StyleModel {
    StyleModel {
        allowed_pitch_classes: None,
        chord_vocab: Seq::empty(),
        chord_quality_vocab: Seq::empty(),
        set_class_vocab: Seq::empty(),
        rhythm_vocab: Seq::empty(),
        rhythm_concepts: Seq::empty(),
        dynamic_vocab: Seq::empty(),
        articulation_vocab: Seq::empty(),
        ornaments: Seq::empty(),
        non_chord_tones: Seq::empty(),
        tuning_systems: Seq::empty(),
        world_traditions: Seq::empty(),
        historical_eras: Seq::empty(),
        harmonic_functions: Seq::empty(),
        max_melodic_leap: None,
        max_voice_spacing: None,
        contrapuntal_motion: Seq::empty(),
        cadences: Seq::empty(),
        harmonic_progression: Seq::empty(),
        texture: None,
        form: None,
        meter: None,
        meter_catalog: Seq::empty(),
        tempo_range: None,
        instrument_ranges: Seq::empty(),
        theory: Seq::empty(),
        custom_theory: Seq::empty(),
        custom_rules: Seq::empty(),
        rule_severity: Seq::empty(),
    }
}

/// The settings of the built-in Classical style: C major, the diatonic triads of C,
/// whole to sixteenth notes, leaps and spacing of at most an octave, no parallel
/// motion, 4/4 and 40 to 208 beats per minute.
pub open spec fn classical_model() -> StyleModel {
    StyleModel {
        allowed_pitch_classes: Some(c_major_classes().to_set()),
        chord_vocab: seq![
            seq![PitchClass::C, PitchClass::E, PitchClass::G],
            seq![PitchClass::D, PitchClass::F, PitchClass::A],
            seq![PitchClass::E, PitchClass::G, PitchClass::B],
            seq![PitchClass::F, PitchClass::A, PitchClass::C],
            seq![PitchClass::G, PitchClass::B, PitchClass::D],
            seq![PitchClass::A, PitchClass::C, PitchClass::E],
        ],
        rhythm_vocab: seq![(1nat, 1nat), (1nat, 2nat), (1nat, 4nat), (1nat, 8nat), (1nat, 16nat)],
        max_melodic_leap: Some(12),
        max_voice_spacing: Some(12),
        contrapuntal_motion: seq!["contrary"@, "oblique"@, "similar"@],
        meter: Some(Meter { numerator: 4, denominator: 4 }),
        tempo_range: Some((40u16, 208u16)),
        ..empty_model()
    }
}

/// Two models agree when every field does.
proof fn lemma_model_fields(c: StyleContext, m: StyleModel)
    requires
        style_model(c).allowed_pitch_classes =~~= m.allowed_pitch_classes,
        style_model(c).chord_vocab =~~= m.chord_vocab,
        style_model(c).chord_quality_vocab =~~= m.chord_quality_vocab,
        style_model(c).set_class_vocab =~~= m.set_class_vocab,
        style_model(c).rhythm_vocab =~~= m.rhythm_vocab,
        style_model(c).rhythm_concepts =~~= m.rhythm_concepts,
        style_model(c).dynamic_vocab =~~= m.dynamic_vocab,
        style_model(c).articulation_vocab =~~= m.articulation_vocab,
        style_model(c).ornaments =~~= m.ornaments,
        style_model(c).non_chord_tones =~~= m.non_chord_tones,
        style_model(c).tuning_systems =~~= m.tuning_systems,
        style_model(c).world_traditions =~~= m.world_traditions,
        style_model(c).historical_eras =~~= m.historical_eras,
        style_model(c).harmonic_functions =~~= m.harmonic_functions,
        style_model(c).max_melodic_leap == m.max_melodic_leap,
        style_model(c).max_voice_spacing == m.max_voice_spacing,
        style_model(c).contrapuntal_motion =~~= m.contrapuntal_motion,
        style_model(c).cadences =~~= m.cadences,
        style_model(c).harmonic_progression =~~= m.harmonic_progression,
        style_model(c).texture =~~= m.texture,
        style_model(c).form =~~= m.form,
        style_model(c).meter == m.meter,
        style_model(c).meter_catalog =~~= m.meter_catalog,
        style_model(c).tempo_range == m.tempo_range,
        style_model(c).instrument_ranges =~~= m.instrument_ranges,
        style_model(c).theory =~~= m.theory,
        style_model(c).custom_theory =~~= m.custom_theory,
        style_model(c).custom_rules =~~= m.custom_rules,
        style_model(c).rule_severity =~~= m.rule_severity,
    ensures
        style_model(c) == m,
{
}

/// The settings of the built-in Modal style: the white-key classes, whole to
/// eighth notes, leaps of at most a minor seventh, one line, 48 to 144 beats per minute.
pub open spec fn modal_model() -> StyleModel {
    StyleModel {
        allowed_pitch_classes: Some(c_major_classes().to_set()),
        rhythm_vocab: seq![(1nat, 1nat), (1nat, 2nat), (1nat, 4nat), (1nat, 8nat)],
        max_melodic_leap: Some(10),
        texture: Some("monophony"@),
        tempo_range: Some((48u16, 144u16)),
        ..empty_model()
    }
}

/// The twelve pitch classes.
pub open spec fn chromatic_classes() -> Seq<PitchClass> {
    seq![
        PitchClass::C,
        PitchClass::Cs,
        PitchClass::D,
        PitchClass::Ds,
        PitchClass::E,
        PitchClass::F,
        PitchClass::Fs,
        PitchClass::G,
        PitchClass::Gs,
        PitchClass::A,
        PitchClass::As,
        PitchClass::B,
    ]
}

/// The settings of the built-in Jazz style: every class, the diatonic seventh chords
/// of C, half to sixteenth notes, 60 to 260 beats per minute, and parallel fifths and
/// voice crossing as warnings.
pub open spec fn jazz_model() -> StyleModel {
    StyleModel {
        allowed_pitch_classes: Some(chromatic_classes().to_set()),
        chord_vocab: seq![
            seq![PitchClass::C, PitchClass::E, PitchClass::G, PitchClass::B],
            seq![PitchClass::D, PitchClass::F, PitchClass::A, PitchClass::C],
            seq![PitchClass::E, PitchClass::G, PitchClass::B, PitchClass::D],
            seq![PitchClass::F, PitchClass::A, PitchClass::C, PitchClass::E],
            seq![PitchClass::G, PitchClass::B, PitchClass::D, PitchClass::F],
            seq![PitchClass::A, PitchClass::C, PitchClass::E, PitchClass::G],
        ],
        rhythm_vocab: seq![(1nat, 2nat), (1nat, 4nat), (1nat, 8nat), (1nat, 16nat)],
        tempo_range: Some((60u16, 260u16)),
        rule_severity: seq![
            ("parallel_fifths"@, RuleSeverity::Warning),
            ("voice_crossing"@, RuleSeverity::Warning),
        ],
        ..empty_model()
    }
}

/// The settings of the built-in Minimalist style: the C major triad, quarter and
/// eighth notes, leaps of at most a fifth, one line, 80 to 180 beats per minute.
pub open spec fn minimalist_model() -> StyleModel {
    StyleModel {
        allowed_pitch_classes: Some(seq![PitchClass::C, PitchClass::E, PitchClass::G].to_set()),
        rhythm_vocab: seq![(1nat, 4nat), (1nat, 8nat)],
        max_melodic_leap: Some(7),
        texture: Some("monophony"@),
        tempo_range: Some((80u16, 180u16)),
        ..empty_model()
    }
}

/// The settings of the built-in style with an id; nothing for any other name.
pub open spec fn built_in_model(name: Seq<char>) -> StyleModel {
    if name == "Classical"@ {
        classical_model()
    } else if name == "Modal"@ {
        modal_model()
    } else if name == "Jazz"@ {
        jazz_model()
    } else if name == "Minimalist"@ {
        minimalist_model()
    } else {
        empty_model()
    }
}

/// The classes of C major.
/// A context's allowed pitch classes, where it has them, are listed once each, in the order
/// of their semitones, as a sorted set keeps them.
pub open spec fn classes_listed_once(s: StyleContext) -> bool {
    s.allowed_pitch_classes matches Some(v) ==> crate::vocab::classes_ascending(v@)
}

pub open spec fn c_major_classes() -> Seq<PitchClass> {
    seq![
        PitchClass::C,
        PitchClass::D,
        PitchClass::E,
        PitchClass::F,
        PitchClass::G,
        PitchClass::A,
        PitchClass::B,
    ]
}

fn c_major() -> (r: Vec<PitchClass>)
    ensures
        r@ == c_major_classes(),
{
    let r = vec![
        PitchClass::C,
        PitchClass::D,
        PitchClass::E,
        PitchClass::F,
        PitchClass::G,
        PitchClass::A,
        PitchClass::B,
    ];
    assert(r@ =~= c_major_classes());
    r
}

fn simple_duration(denominator: u32) -> (r: Duration)
    requires
        denominator == 1 || denominator == 2 || denominator == 4 || denominator == 8
            || denominator == 16,
    ensures
        r.numerator_spec() == 1,
        r.denominator_spec() == denominator,
{
    match Duration::new(1, denominator) {
        Ok(d) => {
            assert(crate::music::gcd_spec(1, denominator as nat) == 1) by {
                reveal_with_fuel(crate::music::gcd_spec, 4);
                if denominator == 1 {
                    assert(crate::music::gcd_spec(1, 1) == 1);
                } else if denominator == 2 {
                    assert(crate::music::gcd_spec(1, 2) == 1);
                } else if denominator == 4 {
                    assert(crate::music::gcd_spec(1, 4) == 1);
                } else if denominator == 8 {
                    assert(crate::music::gcd_spec(1, 8) == 1);
                } else {
                    assert(crate::music::gcd_spec(1, 16) == 1);
                }
            }
            d
        },
        Err(_) => {
            assert(false);
            Duration::new(1, 1).unwrap()
        },
    }
}

impl StyleContext {
    pub fn core_style() -> (r: StyleContext)
        ensures
            classes_listed_once(r),
            r.name@ == "Core"@,
            is_empty_style(r),
            style_model(r) == empty_model(),
    {
        let r = StyleContext {
            name: owned("Core"),
            allowed_pitch_classes: None,
            chord_vocab: Vec::new(),
            chord_quality_vocab: Vec::new(),
            set_class_vocab: Vec::new(),
            rhythm_vocab: Vec::new(),
            rhythm_concepts: Vec::new(),
            dynamic_vocab: Vec::new(),
            articulation_vocab: Vec::new(),
            ornaments: Vec::new(),
            non_chord_tones: Vec::new(),
            tuning_systems: Vec::new(),
            world_traditions: Vec::new(),
            historical_eras: Vec::new(),
            harmonic_functions: Vec::new(),
            max_melodic_leap: None,
            max_voice_spacing: None,
            contrapuntal_motion: Vec::new(),
            cadences: Vec::new(),
            harmonic_progression: Vec::new(),
            texture: None,
            form: None,
            meter: None,
            meter_catalog: Vec::new(),
            tempo_range: None,
            instrument_ranges: Vec::new(),
            theory: Vec::new(),
            custom_theory: Vec::new(),
            custom_rules: Vec::new(),
            rule_severity: Vec::new(),
        };
        proof {
            lemma_model_fields(r, empty_model());
        }
        r
    }

    pub fn classical_c_major() -> (r: StyleContext)
        ensures
            classes_listed_once(r),
            r.name@ == "Classical"@,
            r.allowed_pitch_classes == Some(r.allowed_pitch_classes->0),
            r.allowed_pitch_classes->0@ == c_major_classes(),
            r.chord_vocab@.len() == 6,
            r.rhythm_vocab@.len() == 5,
            r.max_melodic_leap matches Some(i) && i.semitones_spec() == 12,
            r.max_voice_spacing matches Some(i) && i.semitones_spec() == 12,
            r.contrapuntal_motion@.len() == 3,
            r.meter == Some(Meter { numerator: 4, denominator: 4 }),
            r.tempo_range == Some((40u16, 208u16)),
            r.rule_severity@.len() == 0,
            style_model(r) == classical_model(),
    {
        let mut style = StyleContext::core_style();
        style.name = owned("Classical");
        style.allowed_pitch_classes = Some(c_major());
        style.chord_vocab = vec![
            vec![PitchClass::C, PitchClass::E, PitchClass::G],
            vec![PitchClass::D, PitchClass::F, PitchClass::A],
            vec![PitchClass::E, PitchClass::G, PitchClass::B],
            vec![PitchClass::F, PitchClass::A, PitchClass::C],
            vec![PitchClass::G, PitchClass::B, PitchClass::D],
            vec![PitchClass::A, PitchClass::C, PitchClass::E],
        ];
        style.rhythm_vocab = vec![
            simple_duration(1),
            simple_duration(2),
            simple_duration(4),
            simple_duration(8),
            simple_duration(16),
        ];
        style.max_melodic_leap = Some(Interval::new(12));
        style.max_voice_spacing = Some(Interval::new(12));
        style.contrapuntal_motion = vec![owned("contrary"), owned("oblique"), owned("similar")];
        style.meter = Some(Meter { numerator: 4, denominator: 4 });
        style.tempo_range = Some((40, 208));
        proof {
            lemma_model_fields(style, classical_model());
        }
        style
    }

    pub fn modal() -> (r: StyleContext)
        ensures
            classes_listed_once(r),
            r.name@ == "Modal"@,
            r.allowed_pitch_classes == Some(r.allowed_pitch_classes->0),
            r.allowed_pitch_classes->0@ == c_major_classes(),
            r.rhythm_vocab@.len() == 4,
            r.max_melodic_leap matches Some(i) && i.semitones_spec() == 10,
            r.texture matches Some(t) && t@ == "monophony"@,
            r.tempo_range == Some((48u16, 144u16)),
            r.rule_severity@.len() == 0,
            style_model(r) == modal_model(),
    {
        let mut style = StyleContext::core_style();
        style.name = owned("Modal");
        style.allowed_pitch_classes = Some(c_major());
        style.rhythm_vocab = vec![
            simple_duration(1),
            simple_duration(2),
            simple_duration(4),
            simple_duration(8),
        ];
        style.max_melodic_leap = Some(Interval::new(10));
        style.texture = Some(owned("monophony"));
        style.tempo_range = Some((48, 144));
        proof {
            lemma_model_fields(style, modal_model());
        }
        style
    }

    pub fn jazz() -> (r: StyleContext)
        ensures
            classes_listed_once(r),
            r.name@ == "Jazz"@,
            r.allowed_pitch_classes matches Some(v) && forall|c: PitchClass| v@.contains(c),
            r.chord_vocab@.len() == 6,
            r.rhythm_vocab@.len() == 4,
            r.tempo_range == Some((60u16, 260u16)),
            severity_lookup(r.rule_severity@, "parallel_fifths"@) == Some(RuleSeverity::Warning),
            severity_lookup(r.rule_severity@, "voice_crossing"@) == Some(RuleSeverity::Warning),
            style_model(r) == jazz_model(),
    {
        let mut style = StyleContext::core_style();
        style.name = owned("Jazz");
        let all = vec![
            PitchClass::C,
            PitchClass::Cs,
            PitchClass::D,
            PitchClass::Ds,
            PitchClass::E,
            PitchClass::F,
            PitchClass::Fs,
            PitchClass::G,
            PitchClass::Gs,
            PitchClass::A,
            PitchClass::As,
            PitchClass::B,
        ];
        assert forall|c: PitchClass| all@.contains(c) by {
            match c {
                PitchClass::C => assert(all@[0] == c),
                PitchClass::Cs => assert(all@[1] == c),
                PitchClass::D => assert(all@[2] == c),
                PitchClass::Ds => assert(all@[3] == c),
                PitchClass::E => assert(all@[4] == c),
                PitchClass::F => assert(all@[5] == c),
                PitchClass::Fs => assert(all@[6] == c),
                PitchClass::G => assert(all@[7] == c),
                PitchClass::Gs => assert(all@[8] == c),
                PitchClass::A => assert(all@[9] == c),
                PitchClass::As => assert(all@[10] == c),
                PitchClass::B => assert(all@[11] == c),
            }
        }
        style.allowed_pitch_classes = Some(all);
        style.chord_vocab = vec![
            vec![PitchClass::C, PitchClass::E, PitchClass::G, PitchClass::B],
            vec![PitchClass::D, PitchClass::F, PitchClass::A, PitchClass::C],
            vec![PitchClass::E, PitchClass::G, PitchClass::B, PitchClass::D],
            vec![PitchClass::F, PitchClass::A, PitchClass::C, PitchClass::E],
            vec![PitchClass::G, PitchClass::B, PitchClass::D, PitchClass::F],
            vec![PitchClass::A, PitchClass::C, PitchClass::E, PitchClass::G],
        ];
        style.rhythm_vocab = vec![
            simple_duration(2),
            simple_duration(4),
            simple_duration(8),
            simple_duration(16),
        ];
        style.tempo_range = Some((60, 260));
        assert(all@ =~= chromatic_classes());
        style.set_rule_severity("parallel_fifths", RuleSeverity::Warning);
        style.set_rule_severity("voice_crossing", RuleSeverity::Warning);
        proof {
            assert(style.rule_severity@.len() == 2);
            assert(style.rule_severity@[0] == style.rule_severity@.drop_last().last());
            lemma_model_fields(style, jazz_model());
        }
        style
    }

    pub fn minimalist() -> (r: StyleContext)
        ensures
            classes_listed_once(r),
            r.name@ == "Minimalist"@,
            r.allowed_pitch_classes == Some(r.allowed_pitch_classes->0),
            r.allowed_pitch_classes->0@ == seq![PitchClass::C, PitchClass::E, PitchClass::G],
            r.rhythm_vocab@.len() == 2,
            r.max_melodic_leap matches Some(i) && i.semitones_spec() == 7,
            r.texture matches Some(t) && t@ == "monophony"@,
            r.tempo_range == Some((80u16, 180u16)),
            r.rule_severity@.len() == 0,
            style_model(r) == minimalist_model(),
    {
        let mut style = StyleContext::core_style();
        style.name = owned("Minimalist");
        let classes = vec![PitchClass::C, PitchClass::E, PitchClass::G];
        assert(classes@ =~= seq![PitchClass::C, PitchClass::E, PitchClass::G]);
        style.allowed_pitch_classes = Some(classes);
        style.rhythm_vocab = vec![simple_duration(4), simple_duration(8)];
        style.max_melodic_leap = Some(Interval::new(7));
        style.texture = Some(owned("monophony"));
        style.tempo_range = Some((80, 180));
        proof {
            lemma_model_fields(style, minimalist_model());
        }
        style
    }

    /// The built-in style with this id, or the core style for any other name.
    pub fn named(name: &str) -> (r: StyleContext)
        ensures
            classes_listed_once(r),
            name@ == "Classical"@ ==> r.name@ == "Classical"@,
            name@ == "Modal"@ ==> r.name@ == "Modal"@,
            name@ == "Jazz"@ ==> r.name@ == "Jazz"@,
            name@ == "Minimalist"@ ==> r.name@ == "Minimalist"@,
            !built_in_ids().contains(name@) ==> r.name@ == "Core"@ && is_empty_style(r),
            style_model(r) == built_in_model(name@),
    {
        if str_eq(name, "Classical") {
            StyleContext::classical_c_major()
        } else if str_eq(name, "Modal") {
            StyleContext::modal()
        } else if str_eq(name, "Jazz") {
            StyleContext::jazz()
        } else if str_eq(name, "Minimalist") {
            StyleContext::minimalist()
        } else {
            proof {
                assert(!built_in_ids().contains(name@)) by {
                    if built_in_ids().contains(name@) {
                        let i = choose|i: int| 0 <= i < 4 && built_in_ids()[i] == name@;
                    }
                }
            }
            StyleContext::core_style()
        }
    }

    /// The built-in style with this id, if there is one.
    pub fn built_in(name: &str) -> (r: Option<StyleContext>)
        ensures
            r matches Some(s) ==> classes_listed_once(s),
            r is Some <==> built_in_ids().contains(name@),
            r matches Some(s) ==> s.name@ == name@,
            r matches Some(s) ==> style_model(s) == built_in_model(name@),
    {
        let styles = built_in_styles();
        let mut i: usize = 0;
        while i < styles.len()
            invariant
                styles@.len() == 4,
                forall|k: int| 0 <= k < 4 ==> (#[trigger] styles@[k]).id@ == built_in_ids()[k],
                i <= 4,
                forall|k: int| 0 <= k < i ==> built_in_ids()[k] != name@,
            decreases 4 - i,
        {
            if str_eq(styles[i].id, name) {
                assert(built_in_ids()[i as int] == name@);
                return Some(StyleContext::named(name));
            }
            i = i + 1;
        }
        assert(!built_in_ids().contains(name@));
        None
    }

    pub fn allows_pitch(&self, pitch: Pitch) -> (r: bool)
        ensures
            r == allows_class(*self, pitch.class_spec()),
    {
        match &self.allowed_pitch_classes {
            None => true,
            Some(classes) => {
                let class = pitch.class();
                let mut i: usize = 0;
                while i < classes.len()
                    invariant
                        i <= classes@.len(),
                        self.allowed_pitch_classes == Some(*classes),
                        class == pitch.class_spec(),
                        forall|k: int| 0 <= k < i ==> classes@[k] != class,
                    decreases classes.len() - i,
                {
                    if classes[i] == class {
                        assert(classes@[i as int] == class);
                        assert(classes@.contains(class));
                        assert(self.allowed_pitch_classes == Some(*classes));
                        return true;
                    }
                    i = i + 1;
                }
                false
            },
        }
    }

    /// The severity configured for a rule; `Error` when none is configured.
    pub fn rule_severity(&self, rule: &str) -> (r: RuleSeverity)
        ensures
            r == match severity_lookup(self.rule_severity@, rule@) {
                Some(s) => s,
                None => RuleSeverity::Error,
            },
    {
        let mut i = self.rule_severity.len();
        assert(self.rule_severity@.take(i as int) =~= self.rule_severity@);
        while i > 0
            invariant
                i <= self.rule_severity@.len(),
                severity_lookup(self.rule_severity@, rule@) == severity_lookup(
                    self.rule_severity@.take(i as int),
                    rule@,
                ),
            decreases i,
        {
            let ghost t = self.rule_severity@.take(i as int);
            assert(t.drop_last() =~= self.rule_severity@.take(i - 1));
            if str_eq(self.rule_severity[i - 1].0.as_str(), rule) {
                return self.rule_severity[i - 1].1;
            }
            i = i - 1;
        }
        RuleSeverity::Error
    }

    /// Records the severity of a rule; a later record wins over earlier ones.
    pub fn set_rule_severity(&mut self, rule: &str, severity: RuleSeverity)
        ensures
            final(self).rule_severity@.len() == old(self).rule_severity@.len() + 1,
            severity_lookup(final(self).rule_severity@, rule@) == Some(severity),
            forall|other: Seq<char>|
                other != rule@ ==> severity_lookup(final(self).rule_severity@, other)
                    == severity_lookup(old(self).rule_severity@, other),
            *final(self) == (StyleContext {
                rule_severity: final(self).rule_severity,
                ..*old(self)
            }),
            final(self).rule_severity@.drop_last() == old(self).rule_severity@,
            final(self).rule_severity@.last().0@ == rule@,
            final(self).rule_severity@.last().1 == severity,
    {
        self.rule_severity.push((owned(rule), severity));
        assert(self.rule_severity@.drop_last() =~= old(self).rule_severity@);
    }
}

} // verus!
