use vstd::prelude::*;

use crate::diagnostic::RuleSeverity;
use crate::ir::{KeySignature, NoteEventIr, TrackIr};
use crate::music::DEFAULT_TICKS_PER_QUARTER;
use crate::music::{semitone_of, CoreError, Pitch, PitchClass};
use crate::text::{parse_i16, parse_int_spec, parse_u8, split_once, split_once_spec, str_eq, trim, trim_seq};

verus! {

/// Whether two pitch classes lie a semitone or a whole tone apart, either way round.
pub open spec fn neighbors(first: PitchClass, second: PitchClass) -> bool {
    let d = semitone_of(first) - semitone_of(second);
    d == 1 || d == 2 || d == 10 || d == 11 || d == -1 || d == -2 || d == -10 || d == -11
}

pub fn pitch_classes_are_neighbors(first: PitchClass, second: PitchClass) -> (r: bool)
    ensures
        r == neighbors(first, second),
{
    let d = first.semitone() - second.semitone();
    let distance = if d < 0 {
        -d
    } else {
        d
    };
    distance == 1 || distance == 2 || distance == 10 || distance == 11
}

/// A melodic step: one or two semitones, up or down.
pub open spec fn is_step(distance: int) -> bool {
    distance == 1 || distance == 2 || distance == -1 || distance == -2
}

pub fn pitch_distance_is_step(distance: i16) -> (r: bool)
    ensures
        r == is_step(distance as int),
{
    distance == 1 || distance == 2 || distance == -1 || distance == -2
}

/// The pitch class of an event.
pub open spec fn class_of(e: NoteEventIr) -> PitchClass {
    e.pitch.class_spec()
}

/// At least three events alternating between two different pitch classes.
pub open spec fn trill(events: Seq<NoteEventIr>) -> bool {
    &&& events.len() >= 3
    &&& class_of(events[0]) != class_of(events[1])
    &&& forall|i: int|
        0 <= i < events.len() ==> class_of(#[trigger] events[i]) == if i % 2 == 0 {
            class_of(events[0])
        } else {
            class_of(events[1])
        }
}

pub fn events_form_trill(events: &[NoteEventIr]) -> (r: bool)
    ensures
        r == trill(events@),
{
    if events.len() < 3 {
        return false;
    }
    let first = events[0].pitch.class();
    let second = events[1].pitch.class();
    if first == second {
        return false;
    }
    let mut i: usize = 0;
    while i < events.len()
        invariant
            3 <= events@.len(),
            i <= events@.len(),
            first == class_of(events@[0]),
            second == class_of(events@[1]),
            forall|k: int|
                0 <= k < i ==> class_of(#[trigger] events@[k]) == if k % 2 == 0 {
                    first
                } else {
                    second
                },
        decreases events@.len() - i,
    {
        let expected = if i % 2 == 0 {
            first
        } else {
            second
        };
        if events[i].pitch.class() != expected {
            assert(class_of(events@[i as int]) != expected);
            return false;
        }
        i = i + 1;
    }
    true
}

/// A main pitch class, a neighbour, and the main pitch class again.
pub open spec fn mordent(events: Seq<NoteEventIr>) -> bool {
    &&& events.len() == 3
    &&& class_of(events[2]) == class_of(events[0])
    &&& neighbors(class_of(events[0]), class_of(events[1]))
}

pub fn events_form_mordent(events: &[NoteEventIr]) -> (r: bool)
    ensures
        r == mordent(events@),
{
    if events.len() != 3 {
        return false;
    }
    let main = events[0].pitch.class();
    let neighbor = events[1].pitch.class();
    events[2].pitch.class() == main && pitch_classes_are_neighbors(main, neighbor)
}

/// Upper neighbour, main pitch class, lower neighbour, main pitch class.
pub open spec fn turn(events: Seq<NoteEventIr>) -> bool {
    &&& events.len() == 4
    &&& class_of(events[3]) == class_of(events[1])
    &&& class_of(events[0]) != class_of(events[2])
    &&& neighbors(class_of(events[1]), class_of(events[0]))
    &&& neighbors(class_of(events[1]), class_of(events[2]))
}

pub fn events_form_turn(events: &[NoteEventIr]) -> (r: bool)
    ensures
        r == turn(events@),
{
    if events.len() != 4 {
        return false;
    }
    let main = events[1].pitch.class();
    let upper = events[0].pitch.class();
    let lower = events[2].pitch.class();
    events[3].pitch.class() == main && upper != lower && pitch_classes_are_neighbors(main, upper)
        && pitch_classes_are_neighbors(main, lower)
}

/// The MIDI number of an event's pitch, where it has one.
pub open spec fn midi_of_event(e: NoteEventIr) -> Option<int> {
    match e.pitch.midi_spec() {
        Ok(m) => Some(m as int),
        Err(_) => None,
    }
}

/// One tone between two others, each reached by a step in the same direction.
pub open spec fn passing_tone(
    previous: Option<NoteEventIr>,
    tones: Seq<NoteEventIr>,
    next: Option<NoteEventIr>,
) -> bool {
    &&& previous is Some
    &&& tones.len() == 1
    &&& next is Some
    &&& midi_of_event(previous->0) is Some
    &&& midi_of_event(tones[0]) is Some
    &&& midi_of_event(next->0) is Some
    &&& {
        let first = midi_of_event(tones[0])->0 - midi_of_event(previous->0)->0;
        let second = midi_of_event(next->0)->0 - midi_of_event(tones[0])->0;
        &&& is_step(first)
        &&& is_step(second)
        &&& (first > 0) == (second > 0)
    }
}

pub fn events_form_passing_tone(
    previous: Option<&NoteEventIr>,
    tones: &[NoteEventIr],
    next: Option<&NoteEventIr>,
) -> (r: bool)
    ensures
        r == passing_tone(
            match previous {
                Some(p) => Some(*p),
                None => None,
            },
            tones@,
            match next {
                Some(n) => Some(*n),
                None => None,
            },
        ),
{
    let previous = match previous {
        Some(p) => p,
        None => return false,
    };
    let next = match next {
        Some(n) => n,
        None => return false,
    };
    if tones.len() != 1 {
        return false;
    }
    let previous_pitch = match previous.pitch.midi_number() {
        Ok(m) => m as i16,
        Err(_) => return false,
    };
    let tone_pitch = match tones[0].pitch.midi_number() {
        Ok(m) => m as i16,
        Err(_) => return false,
    };
    let next_pitch = match next.pitch.midi_number() {
        Ok(m) => m as i16,
        Err(_) => return false,
    };
    let first_step = tone_pitch - previous_pitch;
    let second_step = next_pitch - tone_pitch;
    (first_step > 0) == (second_step > 0) && pitch_distance_is_step(first_step)
        && pitch_distance_is_step(second_step)
}

/// One tone that steps away from a pitch and returns to the same pitch.
pub open spec fn neighbor_tone(
    previous: Option<NoteEventIr>,
    tones: Seq<NoteEventIr>,
    next: Option<NoteEventIr>,
) -> bool {
    &&& previous is Some
    &&& tones.len() == 1
    &&& next is Some
    &&& previous->0.pitch == next->0.pitch
    &&& neighbors(class_of(previous->0), class_of(tones[0]))
}

pub fn events_form_neighbor_tone(
    previous: Option<&NoteEventIr>,
    tones: &[NoteEventIr],
    next: Option<&NoteEventIr>,
) -> (r: bool)
    ensures
        r == neighbor_tone(
            match previous {
                Some(p) => Some(*p),
                None => None,
            },
            tones@,
            match next {
                Some(n) => Some(*n),
                None => None,
            },
        ),
{
    let previous = match previous {
        Some(p) => p,
        None => return false,
    };
    let next = match next {
        Some(n) => n,
        None => return false,
    };
    if tones.len() != 1 {
        return false;
    }
    previous.pitch == next.pitch && pitch_classes_are_neighbors(
        previous.pitch.class(),
        tones[0].pitch.class(),
    )
}

/// Every expected pitch class occurs among the actual ones.
pub open spec fn contains_all(actual: Seq<PitchClass>, expected: Seq<PitchClass>) -> bool {
    forall|i: int| 0 <= i < expected.len() ==> actual.contains(#[trigger] expected[i])
}

fn contains_class(actual: &[PitchClass], class: PitchClass) -> (r: bool)
    ensures
        r == actual@.contains(class),
{
    let mut i: usize = 0;
    while i < actual.len()
        invariant
            i <= actual@.len(),
            forall|k: int| 0 <= k < i ==> actual@[k] != class,
        decreases actual@.len() - i,
    {
        if actual[i] == class {
            assert(actual@[i as int] == class);
            return true;
        }
        i = i + 1;
    }
    false
}

pub fn contains_classes(actual: &[PitchClass], expected: &[PitchClass]) -> (r: bool)
    ensures
        r == contains_all(actual@, expected@),
{
    let mut i: usize = 0;
    while i < expected.len()
        invariant
            i <= expected@.len(),
            forall|k: int| 0 <= k < i ==> actual@.contains(#[trigger] expected@[k]),
        decreases expected@.len() - i,
    {
        if !contains_class(actual, expected[i]) {
            return false;
        }
        i = i + 1;
    }
    true
}

/// The triad on a root given by three pitch classes.
pub open spec fn triad(a: PitchClass, b: PitchClass, c: PitchClass) -> Seq<PitchClass> {
    seq![a, b, c]
}

fn triad_vec(a: PitchClass, b: PitchClass, c: PitchClass) -> (r: Vec<PitchClass>)
    ensures
        r@ == triad(a, b, c),
{
    let r = vec![a, b, c];
    assert(r@ =~= triad(a, b, c));
    r
}

/// Whether the last two sonorities form the named cadence; unknown names always match.
pub open spec fn cadence_fits(
    cadence: Seq<char>,
    penultimate: Seq<PitchClass>,
    last: Seq<PitchClass>,
) -> bool {
    let g = triad(PitchClass::G, PitchClass::B, PitchClass::D);
    let c = triad(PitchClass::C, PitchClass::E, PitchClass::G);
    let f = triad(PitchClass::F, PitchClass::A, PitchClass::C);
    let a = triad(PitchClass::A, PitchClass::C, PitchClass::E);
    if cadence == "authentic"@ {
        contains_all(penultimate, g) && contains_all(last, c)
    } else if cadence == "plagal"@ {
        contains_all(penultimate, f) && contains_all(last, c)
    } else if cadence == "deceptive"@ {
        contains_all(penultimate, g) && contains_all(last, a)
    } else if cadence == "half"@ {
        contains_all(last, g)
    } else {
        true
    }
}

pub fn cadence_matches(cadence: &str, penultimate: &[PitchClass], final_sonority: &[PitchClass]) -> (r:
    bool)
    ensures
        r == cadence_fits(cadence@, penultimate@, final_sonority@),
{
    let g = triad_vec(PitchClass::G, PitchClass::B, PitchClass::D);
    let c = triad_vec(PitchClass::C, PitchClass::E, PitchClass::G);
    if str_eq(cadence, "authentic") {
        contains_classes(penultimate, g.as_slice()) && contains_classes(final_sonority, c.as_slice())
    } else if str_eq(cadence, "plagal") {
        let f = triad_vec(PitchClass::F, PitchClass::A, PitchClass::C);
        contains_classes(penultimate, f.as_slice()) && contains_classes(final_sonority, c.as_slice())
    } else if str_eq(cadence, "deceptive") {
        let a = triad_vec(PitchClass::A, PitchClass::C, PitchClass::E);
        contains_classes(penultimate, g.as_slice()) && contains_classes(final_sonority, a.as_slice())
    } else if str_eq(cadence, "half") {
        contains_classes(final_sonority, g.as_slice())
    } else {
        true
    }
}

/// The harmonic function that a sonority has, by the first triad it holds.
pub open spec fn function_of(classes: Seq<PitchClass>) -> Option<Seq<char>> {
    if contains_all(classes, triad(PitchClass::C, PitchClass::E, PitchClass::G)) {
        Some("tonic"@)
    } else if contains_all(classes, triad(PitchClass::F, PitchClass::A, PitchClass::C))
        || contains_all(classes, triad(PitchClass::D, PitchClass::F, PitchClass::A)) {
        Some("predominant"@)
    } else if contains_all(classes, triad(PitchClass::G, PitchClass::B, PitchClass::D))
        || contains_all(classes, triad(PitchClass::B, PitchClass::D, PitchClass::F)) {
        Some("dominant"@)
    } else if contains_all(classes, triad(PitchClass::D, PitchClass::Fs, PitchClass::A)) {
        Some("secondary_dominant"@)
    } else if contains_all(classes, triad(PitchClass::A, PitchClass::C, PitchClass::E)) {
        Some("submediant"@)
    } else {
        None
    }
}

pub fn harmonic_function(classes: &[PitchClass]) -> (r: Option<&'static str>)
    ensures
        match r {
            Some(s) => function_of(classes@) == Some(s@),
            None => function_of(classes@) is None,
        },
{
    if contains_classes(classes, triad_vec(PitchClass::C, PitchClass::E, PitchClass::G).as_slice()) {
        Some("tonic")
    } else if contains_classes(
        classes,
        triad_vec(PitchClass::F, PitchClass::A, PitchClass::C).as_slice(),
    ) || contains_classes(classes, triad_vec(PitchClass::D, PitchClass::F, PitchClass::A).as_slice()) {
        Some("predominant")
    } else if contains_classes(
        classes,
        triad_vec(PitchClass::G, PitchClass::B, PitchClass::D).as_slice(),
    ) || contains_classes(classes, triad_vec(PitchClass::B, PitchClass::D, PitchClass::F).as_slice()) {
        Some("dominant")
    } else if contains_classes(
        classes,
        triad_vec(PitchClass::D, PitchClass::Fs, PitchClass::A).as_slice(),
    ) {
        Some("secondary_dominant")
    } else if contains_classes(
        classes,
        triad_vec(PitchClass::A, PitchClass::C, PitchClass::E).as_slice(),
    ) {
        Some("submediant")
    } else {
        None
    }
}

/// The kind of motion between two voices from one pair of events to the next.
pub open spec fn motion_of(
    upper_a: NoteEventIr,
    lower_a: NoteEventIr,
    upper_b: NoteEventIr,
    lower_b: NoteEventIr,
) -> Option<Seq<char>> {
    if midi_of_event(upper_a) is None || midi_of_event(upper_b) is None || midi_of_event(lower_a) is None
        || midi_of_event(lower_b) is None {
        None
    } else {
        let up = midi_of_event(upper_b)->0 - midi_of_event(upper_a)->0;
        let low = midi_of_event(lower_b)->0 - midi_of_event(lower_a)->0;
        if up == 0 || low == 0 {
            Some("oblique"@)
        } else if (up > 0) != (low > 0) {
            Some("contrary"@)
        } else if up == low {
            Some("parallel"@)
        } else {
            Some("similar"@)
        }
    }
}

/// How two voices move from one pair of notes to the next, by the signed steps `up` and
/// `low` that the upper and the lower voice take: obliquely when one of them keeps its pitch,
/// in contrary motion when they move in opposite directions, in parallel when they move the
/// same way by the same amount, and in similar motion when they move the same way by
/// different amounts.
pub proof fn lemma_motion_classes(
    upper_a: NoteEventIr,
    lower_a: NoteEventIr,
    upper_b: NoteEventIr,
    lower_b: NoteEventIr,
)
    requires
        midi_of_event(upper_a) is Some,
        midi_of_event(lower_a) is Some,
        midi_of_event(upper_b) is Some,
        midi_of_event(lower_b) is Some,
    ensures
        ({
            let up = midi_of_event(upper_b)->0 - midi_of_event(upper_a)->0;
            let low = midi_of_event(lower_b)->0 - midi_of_event(lower_a)->0;
            let m = motion_of(upper_a, lower_a, upper_b, lower_b);
            &&& (m == Some("oblique"@)) <==> (up == 0 || low == 0)
            &&& (m == Some("contrary"@)) <==> ((up > 0 && low < 0) || (up < 0 && low > 0))
            &&& (m == Some("parallel"@)) <==> (up != 0 && up == low)
            &&& (m == Some("similar"@)) <==> ((up > 0 && low > 0 && up != low) || (up < 0 && low < 0
                && up != low))
        }),
{
    reveal_strlit("oblique");
    reveal_strlit("contrary");
    reveal_strlit("parallel");
    reveal_strlit("similar");
    assert("oblique"@ =~= seq!['o', 'b', 'l', 'i', 'q', 'u', 'e']);
    assert("contrary"@ =~= seq!['c', 'o', 'n', 't', 'r', 'a', 'r', 'y']);
    assert("parallel"@ =~= seq!['p', 'a', 'r', 'a', 'l', 'l', 'e', 'l']);
    assert("similar"@ =~= seq!['s', 'i', 'm', 'i', 'l', 'a', 'r']);
}

pub fn motion_type(
    upper_a: &NoteEventIr,
    lower_a: &NoteEventIr,
    upper_b: &NoteEventIr,
    lower_b: &NoteEventIr,
) -> (r: Option<&'static str>)
    ensures
        match r {
            Some(s) => motion_of(*upper_a, *lower_a, *upper_b, *lower_b) == Some(s@),
            None => motion_of(*upper_a, *lower_a, *upper_b, *lower_b) is None,
        },
{
    let ub = match upper_b.pitch.midi_number() {
        Ok(m) => m as i16,
        Err(_) => return None,
    };
    let ua = match upper_a.pitch.midi_number() {
        Ok(m) => m as i16,
        Err(_) => return None,
    };
    let lb = match lower_b.pitch.midi_number() {
        Ok(m) => m as i16,
        Err(_) => return None,
    };
    let la = match lower_a.pitch.midi_number() {
        Ok(m) => m as i16,
        Err(_) => return None,
    };
    let upper_motion = ub - ua;
    let lower_motion = lb - la;
    if upper_motion == 0 || lower_motion == 0 {
        return Some("oblique");
    }
    if (upper_motion > 0) != (lower_motion > 0) {
        return Some("contrary");
    }
    if upper_motion == lower_motion {
        return Some("parallel");
    }
    Some("similar")
}

/// The interval between two MIDI numbers, reduced to an octave, with byte wrap-around.
pub open spec fn interval_class(upper: Pitch, lower: Pitch) -> Option<int> {
    match (upper.midi_spec(), lower.midi_spec()) {
        (Ok(u), Ok(l)) => Some(((u as int - l as int + 256) % 256) % 12),
        _ => None,
    }
}

pub fn interval_mod_12(upper: Pitch, lower: Pitch) -> (r: Option<u8>)
    ensures
        match r {
            Some(v) => interval_class(upper, lower) == Some(v as int),
            None => interval_class(upper, lower) is None,
        },
{
    let u = match upper.midi_number() {
        Ok(m) => m,
        Err(_) => return None,
    };
    let l = match lower.midi_number() {
        Ok(m) => m,
        Err(_) => return None,
    };
    let wrapped: u8 = if u >= l {
        u - l
    } else {
        (256 - l as u16 + u as u16) as u8
    };
    Some(wrapped % 12)
}

/// The severity that a style entry names, after trimming.
pub open spec fn severity_from_text(value: Seq<char>) -> Option<RuleSeverity> {
    let t = trim_seq(value);
    if t == "error"@ {
        Some(RuleSeverity::Error)
    } else if t == "warning"@ || t == "warn"@ {
        Some(RuleSeverity::Warning)
    } else if t == "off"@ {
        Some(RuleSeverity::Off)
    } else {
        None
    }
}

pub fn parse_rule_severity(value: &str) -> (r: Option<RuleSeverity>)
    ensures
        r == severity_from_text(value@),
{
    let t = trim(value);
    let t = t.as_str();
    if str_eq(t, "error") {
        Some(RuleSeverity::Error)
    } else if str_eq(t, "warning") || str_eq(t, "warn") {
        Some(RuleSeverity::Warning)
    } else if str_eq(t, "off") {
        Some(RuleSeverity::Off)
    } else {
        None
    }
}

/// The rules that the compiler itself knows.
pub open spec fn built_in_rule(rule: Seq<char>) -> bool {
    ||| rule == "scale"@
    ||| rule == "chord_vocab"@
    ||| rule == "chord_quality_vocab"@
    ||| rule == "set_class_vocab"@
    ||| rule == "meter"@
    ||| rule == "meter_catalog"@
    ||| rule == "tempo_range"@
    ||| rule == "rhythm_vocab"@
    ||| rule == "rhythm_concept"@
    ||| rule == "melodic_concept"@
    ||| rule == "phrase_concept"@
    ||| rule == "ensemble_concept"@
    ||| rule == "bass_concept"@
    ||| rule == "dynamic_vocab"@
    ||| rule == "articulation_vocab"@
    ||| rule == "ornament"@
    ||| rule == "non_chord_tone"@
    ||| rule == "tuning_system"@
    ||| rule == "world_tradition"@
    ||| rule == "historical_era"@
    ||| rule == "harmonic_function"@
    ||| rule == "max_melodic_leap"@
    ||| rule == "contrapuntal_motion"@
    ||| rule == "voice_spacing"@
    ||| rule == "cadence"@
    ||| rule == "harmonic_progression"@
    ||| rule == "texture"@
    ||| rule == "form"@
    ||| rule == "instrument_range"@
    ||| rule == "parallel_fifths"@
    ||| rule == "voice_crossing"@
}

pub fn known_rule(rule: &str) -> (r: bool)
    ensures
        r == built_in_rule(rule@),
{
    str_eq(rule, "scale") || str_eq(rule, "chord_vocab") || str_eq(rule, "chord_quality_vocab")
        || str_eq(rule, "set_class_vocab") || str_eq(rule, "meter") || str_eq(rule, "meter_catalog")
        || str_eq(rule, "tempo_range") || str_eq(rule, "rhythm_vocab") || str_eq(
        rule,
        "rhythm_concept",
    ) || str_eq(rule, "melodic_concept") || str_eq(rule, "phrase_concept") || str_eq(
        rule,
        "ensemble_concept",
    ) || str_eq(rule, "bass_concept") || str_eq(rule, "dynamic_vocab") || str_eq(
        rule,
        "articulation_vocab",
    ) || str_eq(rule, "ornament") || str_eq(rule, "non_chord_tone") || str_eq(
        rule,
        "tuning_system",
    ) || str_eq(rule, "world_tradition") || str_eq(rule, "historical_era") || str_eq(
        rule,
        "harmonic_function",
    ) || str_eq(rule, "max_melodic_leap") || str_eq(rule, "contrapuntal_motion") || str_eq(
        rule,
        "voice_spacing",
    ) || str_eq(rule, "cadence") || str_eq(rule, "harmonic_progression") || str_eq(
        rule,
        "texture",
    ) || str_eq(rule, "form") || str_eq(rule, "instrument_range") || str_eq(
        rule,
        "parallel_fifths",
    ) || str_eq(rule, "voice_crossing")
}

/// The semitones of one step of a scale or mode pattern: `W`, `H` or a number.
pub open spec fn step_semitones(step: Seq<char>) -> Option<int> {
    if step == "W"@ {
        Some(2)
    } else if step == "H"@ {
        Some(1)
    } else {
        parse_int_spec(step, true, -32768, 32767)
    }
}

pub fn pattern_step_semitones(step: &str) -> (r: Option<i16>)
    ensures
        match r {
            Some(v) => step_semitones(step@) == Some(v as int),
            None => step_semitones(step@) is None,
        },
{
    if str_eq(step, "W") {
        Some(2)
    } else if str_eq(step, "H") {
        Some(1)
    } else {
        parse_i16(step)
    }
}

/// A meter written `n/d` after trimming, both numbers bytes.
pub open spec fn meter_from_text(value: Seq<char>) -> Option<(int, int)> {
    match split_once_spec(trim_seq(value), '/') {
        Some((a, b)) => match (parse_int_spec(a, false, 0, 255), parse_int_spec(b, false, 0, 255)) {
            (Some(n), Some(d)) => Some((n, d)),
            _ => None,
        },
        None => None,
    }
}

pub fn parse_meter(value: &str) -> (r: Option<(u8, u8)>)
    ensures
        match r {
            Some((n, d)) => meter_from_text(value@) == Some((n as int, d as int)),
            None => meter_from_text(value@) is None,
        },
{
    let t = trim(value);
    let (a, b) = match split_once(t.as_str(), '/') {
        Some(parts) => parts,
        None => return None,
    };
    let n = match parse_u8(a.as_str()) {
        Some(n) => n,
        None => return None,
    };
    let d = match parse_u8(b.as_str()) {
        Some(d) => d,
        None => return None,
    };
    Some((n, d))
}

/// The key signature of a tonic in major or minor, as sharps (positive) or flats.
pub open spec fn fifths_of(tonic: Seq<char>, minor: bool) -> Option<int> {
    if !minor {
        if tonic == "Cb"@ {
            Some(-7)
        } else if tonic == "Gb"@ {
            Some(-6)
        } else if tonic == "Db"@ {
            Some(-5)
        } else if tonic == "Ab"@ {
            Some(-4)
        } else if tonic == "Eb"@ {
            Some(-3)
        } else if tonic == "Bb"@ {
            Some(-2)
        } else if tonic == "F"@ {
            Some(-1)
        } else if tonic == "C"@ {
            Some(0)
        } else if tonic == "G"@ {
            Some(1)
        } else if tonic == "D"@ {
            Some(2)
        } else if tonic == "A"@ {
            Some(3)
        } else if tonic == "E"@ {
            Some(4)
        } else if tonic == "B"@ {
            Some(5)
        } else if tonic == "F#"@ {
            Some(6)
        } else if tonic == "C#"@ {
            Some(7)
        } else {
            None
        }
    } else {
        if tonic == "Ab"@ {
            Some(-7)
        } else if tonic == "Eb"@ {
            Some(-6)
        } else if tonic == "Bb"@ {
            Some(-5)
        } else if tonic == "F"@ {
            Some(-4)
        } else if tonic == "C"@ {
            Some(-3)
        } else if tonic == "G"@ {
            Some(-2)
        } else if tonic == "D"@ {
            Some(-1)
        } else if tonic == "A"@ {
            Some(0)
        } else if tonic == "E"@ {
            Some(1)
        } else if tonic == "B"@ {
            Some(2)
        } else if tonic == "F#"@ {
            Some(3)
        } else if tonic == "C#"@ {
            Some(4)
        } else if tonic == "G#"@ {
            Some(5)
        } else if tonic == "D#"@ {
            Some(6)
        } else if tonic == "A#"@ {
            Some(7)
        } else {
            None
        }
    }
}

/// The semitone of a note name: its letter's, raised by a `#` or lowered by a `b` after it.
pub open spec fn spelled_semitone(name: Seq<char>) -> int {
    let letter: int = if name[0] == 'C' {
        0
    } else if name[0] == 'D' {
        2
    } else if name[0] == 'E' {
        4
    } else if name[0] == 'F' {
        5
    } else if name[0] == 'G' {
        7
    } else if name[0] == 'A' {
        9
    } else {
        11
    };
    letter + if name.len() >= 2 && name[1] == '#' {
        1int
    } else if name.len() >= 2 && name[1] == 'b' {
        -1int
    } else {
        0int
    }
}

/// A key signature sits on the circle of fifths: its major tonic lies seven semitones
/// (a fifth) above the major tonic of the signature with one sharp fewer, so `f` sharps
/// (or `-f` flats) name the major key `7 * f` semitones above C; and a minor key has the
/// signature of its relative major, a minor third (three semitones) above its tonic. A sharp
/// tonic takes sharps, a flat one flats, and a natural one at most five of either.
pub proof fn lemma_key_signature_on_circle_of_fifths(tonic: Seq<char>, minor: bool)
    requires
        fifths_of(tonic, minor) is Some,
    ensures
        (spelled_semitone(tonic) + (if minor {
            3int
        } else {
            0int
        }) - 7 * fifths_of(tonic, minor)->0) % 12 == 0,
        -7 <= fifths_of(tonic, minor)->0 <= 7,
        tonic.len() == 2 && tonic[1] == '#' ==> fifths_of(tonic, minor)->0 > 0,
        tonic.len() == 2 && tonic[1] == 'b' ==> fifths_of(tonic, minor)->0 < 0,
        tonic.len() == 1 ==> -5 <= fifths_of(tonic, minor)->0 <= 5,
{
    reveal_strlit("A");
    reveal_strlit("A#");
    reveal_strlit("Ab");
    reveal_strlit("B");
    reveal_strlit("Bb");
    reveal_strlit("C");
    reveal_strlit("C#");
    reveal_strlit("Cb");
    reveal_strlit("D");
    reveal_strlit("D#");
    reveal_strlit("Db");
    reveal_strlit("E");
    reveal_strlit("Eb");
    reveal_strlit("F");
    reveal_strlit("F#");
    reveal_strlit("G");
    reveal_strlit("G#");
    reveal_strlit("Gb");
    assert("A"@ =~= seq!['A']);
    assert("A#"@ =~= seq!['A', '#']);
    assert("Ab"@ =~= seq!['A', 'b']);
    assert("B"@ =~= seq!['B']);
    assert("Bb"@ =~= seq!['B', 'b']);
    assert("C"@ =~= seq!['C']);
    assert("C#"@ =~= seq!['C', '#']);
    assert("Cb"@ =~= seq!['C', 'b']);
    assert("D"@ =~= seq!['D']);
    assert("D#"@ =~= seq!['D', '#']);
    assert("Db"@ =~= seq!['D', 'b']);
    assert("E"@ =~= seq!['E']);
    assert("Eb"@ =~= seq!['E', 'b']);
    assert("F"@ =~= seq!['F']);
    assert("F#"@ =~= seq!['F', '#']);
    assert("G"@ =~= seq!['G']);
    assert("G#"@ =~= seq!['G', '#']);
    assert("Gb"@ =~= seq!['G', 'b']);
}

/// Whether a mode name, after trimming, is minor.
pub open spec fn minor_mode(mode: Seq<char>) -> bool {
    let m = trim_seq(mode);
    m == "minor"@ || m == "min"@ || m == "aeolian"@
}

fn major_fifths(tonic: &str) -> (r: Option<i8>)
    ensures
        match r {
            Some(v) => fifths_of(tonic@, false) == Some(v as int),
            None => fifths_of(tonic@, false) is None,
        },
{
    if str_eq(tonic, "Cb") {
        Some(-7)
    } else if str_eq(tonic, "Gb") {
        Some(-6)
    } else if str_eq(tonic, "Db") {
        Some(-5)
    } else if str_eq(tonic, "Ab") {
        Some(-4)
    } else if str_eq(tonic, "Eb") {
        Some(-3)
    } else if str_eq(tonic, "Bb") {
        Some(-2)
    } else if str_eq(tonic, "F") {
        Some(-1)
    } else if str_eq(tonic, "C") {
        Some(0)
    } else if str_eq(tonic, "G") {
        Some(1)
    } else if str_eq(tonic, "D") {
        Some(2)
    } else if str_eq(tonic, "A") {
        Some(3)
    } else if str_eq(tonic, "E") {
        Some(4)
    } else if str_eq(tonic, "B") {
        Some(5)
    } else if str_eq(tonic, "F#") {
        Some(6)
    } else if str_eq(tonic, "C#") {
        Some(7)
    } else {
        None
    }
}

fn minor_fifths(tonic: &str) -> (r: Option<i8>)
    ensures
        match r {
            Some(v) => fifths_of(tonic@, true) == Some(v as int),
            None => fifths_of(tonic@, true) is None,
        },
{
    if str_eq(tonic, "Ab") {
        Some(-7)
    } else if str_eq(tonic, "Eb") {
        Some(-6)
    } else if str_eq(tonic, "Bb") {
        Some(-5)
    } else if str_eq(tonic, "F") {
        Some(-4)
    } else if str_eq(tonic, "C") {
        Some(-3)
    } else if str_eq(tonic, "G") {
        Some(-2)
    } else if str_eq(tonic, "D") {
        Some(-1)
    } else if str_eq(tonic, "A") {
        Some(0)
    } else if str_eq(tonic, "E") {
        Some(1)
    } else if str_eq(tonic, "B") {
        Some(2)
    } else if str_eq(tonic, "F#") {
        Some(3)
    } else if str_eq(tonic, "C#") {
        Some(4)
    } else if str_eq(tonic, "G#") {
        Some(5)
    } else if str_eq(tonic, "D#") {
        Some(6)
    } else if str_eq(tonic, "A#") {
        Some(7)
    } else {
        None
    }
}

/// The key signature of a tonic and a mode, both trimmed; `None` for an unknown tonic.
pub fn key_signature(tonic: &str, mode: &str) -> (r: Option<KeySignature>)
    ensures
        match r {
            Some(k) => k.is_minor == minor_mode(mode@) && fifths_of(
                trim_seq(tonic@),
                minor_mode(mode@),
            ) == Some(k.fifths as int),
            None => fifths_of(trim_seq(tonic@), minor_mode(mode@)) is None,
        },
{
    let tonic = trim(tonic);
    let m = trim(mode);
    let m = m.as_str();
    let is_minor = str_eq(m, "minor") || str_eq(m, "min") || str_eq(m, "aeolian");
    let fifths = if is_minor {
        minor_fifths(tonic.as_str())
    } else {
        major_fifths(tonic.as_str())
    };
    match fifths {
        Some(fifths) => Some(KeySignature { fifths, is_minor }),
        None => None,
    }
}

/// A sequence of ticks in strictly increasing order.
pub open spec fn strictly_increasing(s: Seq<u32>) -> bool {
    forall|i: int, j: int| 0 <= i < j < s.len() ==> #[trigger] s[i] < #[trigger] s[j]
}

/// Whether some event starts at a tick.
pub open spec fn starts_at(events: Seq<NoteEventIr>, tick: u32) -> bool {
    exists|i: int| 0 <= i < events.len() && (#[trigger] events[i]).start_tick == tick
}

/// Inserts a tick into a strictly increasing vector unless it is there already.
fn insert_tick(v: &mut Vec<u32>, tick: u32)
    requires
        strictly_increasing(old(v)@),
    ensures
        strictly_increasing(final(v)@),
        forall|t: u32| final(v)@.contains(t) <==> (old(v)@.contains(t) || t == tick),
{
    let mut i: usize = 0;
    while i < v.len() && v[i] < tick
        invariant
            i <= v@.len(),
            v@ == old(v)@,
            forall|k: int| 0 <= k < i ==> v@[k] < tick,
        decreases v@.len() - i,
    {
        i = i + 1;
    }
    if i < v.len() && v[i] == tick {
        return;
    }
    v.insert(i, tick);
    assert forall|a: int, b: int| 0 <= a < b < v@.len() implies #[trigger] v@[a] < #[trigger] v@[b] by {
        if b < i {
            assert(v@[a] == old(v)@[a] && v@[b] == old(v)@[b]);
        } else if b == i {
            assert(v@[a] == old(v)@[a]);
        } else if a == i {
            assert(v@[b] == old(v)@[b - 1]);
            assert(old(v)@[i as int] >= tick);
            if b - 1 > i {
                assert(old(v)@[i as int] < old(v)@[b - 1]);
            }
        } else if a < i {
            assert(v@[a] == old(v)@[a] && v@[b] == old(v)@[b - 1]);
        } else {
            assert(v@[a] == old(v)@[a - 1] && v@[b] == old(v)@[b - 1]);
        }
    }
    assert forall|t: u32| v@.contains(t) <==> (old(v)@.contains(t) || t == tick) by {
        if v@.contains(t) {
            let k = choose|k: int| 0 <= k < v@.len() && v@[k] == t;
            if k < i {
                assert(old(v)@[k] == t);
            } else if k > i {
                assert(old(v)@[k - 1] == t);
            }
        }
        if old(v)@.contains(t) {
            let k = choose|k: int| 0 <= k < old(v)@.len() && old(v)@[k] == t;
            if k < i {
                assert(v@[k] == t);
            } else {
                assert(v@[k + 1] == t);
            }
        }
        if t == tick {
            assert(v@[i as int] == t);
        }
    }
}

/// The distinct start ticks of a track's events, in increasing order.
pub fn attack_grid(track: &TrackIr) -> (r: Vec<u32>)
    ensures
        strictly_increasing(r@),
        forall|t: u32| r@.contains(t) <==> starts_at(track.events@, t),
{
    let mut ticks: Vec<u32> = Vec::new();
    let mut i: usize = 0;
    while i < track.events.len()
        invariant
            i <= track.events@.len(),
            strictly_increasing(ticks@),
            forall|t: u32|
                ticks@.contains(t) <==> starts_at(track.events@.take(i as int), t),
        decreases track.events@.len() - i,
    {
        let tick = track.events[i].start_tick;
        insert_tick(&mut ticks, tick);
        proof {
            let prev = track.events@.take(i as int);
            let next = track.events@.take(i + 1);
            assert forall|t: u32| starts_at(next, t) <==> (starts_at(prev, t) || t == tick) by {
                if starts_at(next, t) {
                    let k = choose|k: int| 0 <= k < next.len() && (#[trigger] next[k]).start_tick == t;
                    if k < i {
                        assert(prev[k] == next[k]);
                    }
                }
                if starts_at(prev, t) {
                    let k = choose|k: int| 0 <= k < prev.len() && (#[trigger] prev[k]).start_tick == t;
                    assert(next[k] == prev[k]);
                }
                if t == tick {
                    assert(next[i as int].start_tick == t);
                }
            }
        }
        i = i + 1;
    }
    assert(track.events@.take(i as int) =~= track.events@);
    ticks
}

proof fn lemma_increasing_unique(a: Seq<u32>, b: Seq<u32>)
    requires
        strictly_increasing(a),
        strictly_increasing(b),
        forall|t: u32| a.contains(t) <==> b.contains(t),
    ensures
        a == b,
    decreases a.len() + b.len(),
{
    if a.len() == 0 {
        if b.len() > 0 {
            assert(b.contains(b[0]));
        }
        assert(a =~= b);
    } else if b.len() == 0 {
        assert(a.contains(a[0]));
    } else {
        assert(a.contains(a[0]));
        assert(b.contains(b[0]));
        let ka = choose|k: int| 0 <= k < a.len() && a[k] == b[0];
        let kb = choose|k: int| 0 <= k < b.len() && b[k] == a[0];
        if ka > 0 {
            assert(a[0] < a[ka]);
            if kb > 0 {
                assert(b[0] < b[kb]);
            }
        }
        if kb > 0 {
            assert(b[0] < b[kb]);
        }
        assert(a[0] == b[0]);
        let ra = a.drop_first();
        let rb = b.drop_first();
        assert forall|t: u32| ra.contains(t) <==> rb.contains(t) by {
            if ra.contains(t) {
                let k = choose|k: int| 0 <= k < ra.len() && ra[k] == t;
                assert(a[k + 1] == t);
                assert(a[0] < a[k + 1]);
                assert(b.contains(t));
                let j = choose|j: int| 0 <= j < b.len() && b[j] == t;
                assert(j != 0);
                assert(rb[j - 1] == t);
            }
            if rb.contains(t) {
                let k = choose|k: int| 0 <= k < rb.len() && rb[k] == t;
                assert(b[k + 1] == t);
                assert(b[0] < b[k + 1]);
                assert(a.contains(t));
                let j = choose|j: int| 0 <= j < a.len() && a[j] == t;
                assert(j != 0);
                assert(ra[j - 1] == t);
            }
        }
        lemma_increasing_unique(ra, rb);
        assert(a.len() == b.len());
        assert forall|i: int| 0 <= i < a.len() implies a[i] == b[i] by {
            if i > 0 {
                assert(a[i] == ra[i - 1]);
                assert(b[i] == rb[i - 1]);
            }
        }
        assert(a =~= b);
    }
}

fn same_ticks(a: &Vec<u32>, b: &Vec<u32>) -> (r: bool)
    ensures
        r == (a@ == b@),
{
    if a.len() != b.len() {
        return false;
    }
    let mut i: usize = 0;
    while i < a.len()
        invariant
            a@.len() == b@.len(),
            i <= a@.len(),
            forall|k: int| 0 <= k < i ==> a@[k] == b@[k],
        decreases a@.len() - i,
    {
        if a[i] != b[i] {
            return false;
        }
        i = i + 1;
    }
    assert(a@ =~= b@);
    true
}

/// Two event lists that start notes at the same set of ticks.
pub open spec fn same_attacks(a: Seq<NoteEventIr>, b: Seq<NoteEventIr>) -> bool {
    forall|t: u32| starts_at(a, t) <==> starts_at(b, t)
}

fn grids_agree(a: &TrackIr, b: &TrackIr) -> (r: bool)
    ensures
        r == same_attacks(a.events@, b.events@),
{
    let ga = attack_grid(a);
    let gb = attack_grid(b);
    let same = same_ticks(&ga, &gb);
    proof {
        if same_attacks(a.events@, b.events@) {
            lemma_increasing_unique(ga@, gb@);
        }
        if same {
            assert forall|t: u32| starts_at(a.events@, t) <==> starts_at(b.events@, t) by {
                assert(ga@.contains(t) == gb@.contains(t));
            }
        }
    }
    same
}

/// Every track with events attacks at the same ticks.
pub open spec fn shared_attack_grid(tracks: Seq<TrackIr>) -> bool {
    forall|i: int, j: int|
        0 <= i < tracks.len() && 0 <= j < tracks.len() && tracks[i].events@.len() > 0
            && tracks[j].events@.len() > 0 ==> same_attacks(
            #[trigger] tracks[i].events@,
            #[trigger] tracks[j].events@,
        )
}

pub fn tracks_share_attack_grid(tracks: &[TrackIr]) -> (r: bool)
    ensures
        r == shared_attack_grid(tracks@),
{
    let mut first: usize = 0;
    while first < tracks.len() && tracks[first].events.len() == 0
        invariant
            first <= tracks@.len(),
            forall|k: int| 0 <= k < first ==> tracks@[k].events@.len() == 0,
        decreases tracks@.len() - first,
    {
        first = first + 1;
    }
    if first == tracks.len() {
        return true;
    }
    let mut i: usize = first + 1;
    while i < tracks.len()
        invariant
            first < i <= tracks@.len(),
            tracks@[first as int].events@.len() > 0,
            forall|k: int| 0 <= k < first ==> tracks@[k].events@.len() == 0,
            forall|k: int|
                first <= k < i && tracks@[k].events@.len() > 0 ==> same_attacks(
                    tracks@[first as int].events@,
                    #[trigger] tracks@[k].events@,
                ),
        decreases tracks@.len() - i,
    {
        if tracks[i].events.len() > 0 && !grids_agree(&tracks[first], &tracks[i]) {
            return false;
        }
        i = i + 1;
    }
    assert forall|a: int, b: int|
        0 <= a < tracks@.len() && 0 <= b < tracks@.len() && tracks@[a].events@.len() > 0
            && tracks@[b].events@.len() > 0 implies same_attacks(
        #[trigger] tracks@[a].events@,
        #[trigger] tracks@[b].events@,
    ) by {
        assert(same_attacks(tracks@[first as int].events@, tracks@[a].events@));
        assert(same_attacks(tracks@[first as int].events@, tracks@[b].events@));
    }
    true
}

/// At least two tracks have events, and all of those attack at the same ticks with
/// the same number of events.
pub open spec fn heterophonic(tracks: Seq<TrackIr>) -> bool {
    &&& exists|i: int, j: int|
        0 <= i < j < tracks.len() && (#[trigger] tracks[i]).events@.len() > 0
            && (#[trigger] tracks[j]).events@.len() > 0
    &&& forall|i: int, j: int|
        0 <= i < tracks.len() && 0 <= j < tracks.len() && tracks[i].events@.len() > 0
            && tracks[j].events@.len() > 0 ==> same_attacks(
            #[trigger] tracks[i].events@,
            #[trigger] tracks[j].events@,
        ) && tracks[i].events@.len() == tracks[j].events@.len()
}

pub fn tracks_are_heterophonic(tracks: &[TrackIr]) -> (r: bool)
    ensures
        r == heterophonic(tracks@),
{
    let mut first: usize = 0;
    while first < tracks.len() && tracks[first].events.len() == 0
        invariant
            first <= tracks@.len(),
            forall|k: int| 0 <= k < first ==> tracks@[k].events@.len() == 0,
        decreases tracks@.len() - first,
    {
        first = first + 1;
    }
    if first == tracks.len() {
        return false;
    }
    let mut others: usize = 0;
    let mut i: usize = first + 1;
    while i < tracks.len()
        invariant
            first < i <= tracks@.len(),
            tracks@[first as int].events@.len() > 0,
            forall|k: int| 0 <= k < first ==> tracks@[k].events@.len() == 0,
            forall|k: int|
                first <= k < i && tracks@[k].events@.len() > 0 ==> same_attacks(
                    tracks@[first as int].events@,
                    #[trigger] tracks@[k].events@,
                ) && tracks@[k].events@.len() == tracks@[first as int].events@.len(),
            others <= i,
            others == 0 <==> forall|k: int| first < k < i ==> tracks@[k].events@.len() == 0,
        decreases tracks@.len() - i,
    {
        if tracks[i].events.len() > 0 {
            if !grids_agree(&tracks[first], &tracks[i]) || tracks[i].events.len()
                != tracks[first].events.len() {
                return false;
            }
            others = others + 1;
        }
        i = i + 1;
    }
    if others == 0 {
        assert forall|a: int, b: int|
            0 <= a < b < tracks@.len() && (#[trigger] tracks@[a]).events@.len() > 0 implies (
            #[trigger] tracks@[b]).events@.len() == 0 by {
            assert(a >= first);
        }
        return false;
    }
    let ghost k = choose|k: int| first < k < tracks@.len() && tracks@[k].events@.len() > 0;
    assert(0 <= first < k < tracks@.len() && tracks@[first as int].events@.len() > 0
        && tracks@[k].events@.len() > 0);
    assert forall|a: int, b: int|
        0 <= a < tracks@.len() && 0 <= b < tracks@.len() && tracks@[a].events@.len() > 0
            && tracks@[b].events@.len() > 0 implies same_attacks(
        #[trigger] tracks@[a].events@,
        #[trigger] tracks@[b].events@,
    ) && tracks@[a].events@.len() == tracks@[b].events@.len() by {
        assert(same_attacks(tracks@[first as int].events@, tracks@[a].events@));
        assert(same_attacks(tracks@[first as int].events@, tracks@[b].events@));
    }
    true
}

/// The length in ticks of event `i`.
pub open spec fn dur(events: Seq<NoteEventIr>, i: int) -> int {
    events[i].duration_ticks as int
}

/// Four or more events, and some pair of consecutive durations recurs elsewhere.
pub open spec fn repeated_duration_cell(events: Seq<NoteEventIr>) -> bool {
    &&& events.len() >= 4
    &&& exists|i: int, j: int|
        0 <= i < events.len() - 1 && 0 <= j < events.len() - 1 && i != j && #[trigger] dur(events, i)
            == #[trigger] dur(events, j) && dur(events, i + 1) == dur(events, j + 1)
}

pub fn track_has_repeated_duration_cell(track: &TrackIr) -> (r: bool)
    ensures
        r == repeated_duration_cell(track.events@),
{
    let n = track.events.len();
    if n < 4 {
        return false;
    }
    let mut i: usize = 0;
    while i + 1 < n
        invariant
            n == track.events@.len(),
            n >= 4,
            i < n,
            forall|a: int, b: int|
                0 <= a < i && 0 <= b < n - 1 && a != b ==> !(#[trigger] dur(track.events@, a) == #[trigger] dur(
                    track.events@,
                    b,
                ) && dur(track.events@, a + 1) == dur(track.events@, b + 1)),
        decreases n - i,
    {
        let mut j: usize = 0;
        while j + 1 < n
            invariant
                n == track.events@.len(),
                n >= 4,
                i + 1 < n,
                j < n,
                forall|b: int|
                    0 <= b < j && b != i ==> !(dur(track.events@, i as int) == #[trigger] dur(track.events@, b)
                        && dur(track.events@, i + 1) == dur(track.events@, b + 1)),
            decreases n - j,
        {
            if j != i && track.events[i].duration_ticks == track.events[j].duration_ticks && track.events[i
                + 1].duration_ticks == track.events[j + 1].duration_ticks {
                assert(dur(track.events@, i as int) == dur(track.events@, j as int));
                assert(dur(track.events@, i + 1) == dur(track.events@, j + 1));
                assert(0 <= i < track.events@.len() - 1 && 0 <= j < track.events@.len() - 1 && i != j);
                assert(repeated_duration_cell(track.events@));
                return true;
            }
            j = j + 1;
        }
        i = i + 1;
    }
    false
}

/// Some event starts off the quarter-note grid.
pub open spec fn syncopated(events: Seq<NoteEventIr>) -> bool {
    exists|i: int|
        0 <= i < events.len() && (#[trigger] events[i]).start_tick % DEFAULT_TICKS_PER_QUARTER != 0
}

pub fn track_has_syncopation(track: &TrackIr) -> (r: bool)
    ensures
        r == syncopated(track.events@),
{
    let mut i: usize = 0;
    while i < track.events.len()
        invariant
            i <= track.events@.len(),
            forall|k: int|
                0 <= k < i ==> (#[trigger] track.events@[k]).start_tick % DEFAULT_TICKS_PER_QUARTER
                    == 0,
        decreases track.events@.len() - i,
    {
        if track.events[i].start_tick % DEFAULT_TICKS_PER_QUARTER != 0 {
            return true;
        }
        i = i + 1;
    }
    false
}

/// Three equal consecutive durations that fill two quarter notes.
pub open spec fn hemiola(events: Seq<NoteEventIr>) -> bool {
    exists|i: int|
        0 <= i && i + 2 < events.len() && #[trigger] dur(events, i) == dur(events, i + 1) && dur(
            events,
            i + 1,
        ) == dur(events, i + 2) && dur(events, i) + dur(events, i + 1) + dur(events, i + 2)
            == DEFAULT_TICKS_PER_QUARTER * 2
}

pub fn track_has_hemiola(track: &TrackIr) -> (r: bool)
    ensures
        r == hemiola(track.events@),
{
    let n = track.events.len();
    let mut i: usize = 0;
    while n >= 3 && i < n - 2
        invariant
            n == track.events@.len(),
            i <= track.events@.len(),
            forall|k: int|
                0 <= k < i && k + 2 < track.events@.len() ==> !(#[trigger] dur(track.events@, k) == dur(
                    track.events@,
                    k + 1,
                ) && dur(track.events@, k + 1) == dur(track.events@, k + 2) && dur(track.events@, k) + dur(
                    track.events@,
                    k + 1,
                ) + dur(track.events@, k + 2) == DEFAULT_TICKS_PER_QUARTER * 2),
        decreases track.events@.len() - i,
    {
        let a = track.events[i].duration_ticks as u64;
        let b = track.events[i + 1].duration_ticks as u64;
        let c = track.events[i + 2].duration_ticks as u64;
        if a == b && b == c && a + b + c == DEFAULT_TICKS_PER_QUARTER as u64 * 2 {
            assert(dur(track.events@, i as int) == a && dur(track.events@, i + 1) == b && dur(track.events@, i + 2) == c);
            assert(hemiola(track.events@));
            return true;
        }
        i = i + 1;
    }
    false
}

/// Some duration is twice the one after it.
pub open spec fn swung(events: Seq<NoteEventIr>) -> bool {
    exists|i: int|
        0 <= i && i + 1 < events.len() && #[trigger] dur(events, i) == 2 * dur(events, i + 1)
}

pub fn track_has_swing(track: &TrackIr) -> (r: bool)
    ensures
        r == swung(track.events@),
{
    let n = track.events.len();
    let mut i: usize = 0;
    while n >= 2 && i < n - 1
        invariant
            n == track.events@.len(),
            i <= track.events@.len(),
            forall|k: int|
                0 <= k < i && k + 1 < track.events@.len() ==> #[trigger] dur(track.events@, k) != 2 * dur(
                    track.events@,
                    k + 1,
                ),
        decreases track.events@.len() - i,
    {
        if track.events[i].duration_ticks as u64 == track.events[i + 1].duration_ticks as u64 * 2 {
            assert(dur(track.events@, i as int) == 2 * dur(track.events@, i + 1));
            assert(swung(track.events@));
            return true;
        }
        i = i + 1;
    }
    false
}

/// The pitch classes of the events that start at a tick, in order.
pub open spec fn classes_at(events: Seq<NoteEventIr>, tick: u32) -> Seq<PitchClass>
    decreases events.len(),
{
    if events.len() == 0 {
        Seq::empty()
    } else {
        let rest = classes_at(events.drop_last(), tick);
        if events.last().start_tick == tick {
            rest.push(class_of(events.last()))
        } else {
            rest
        }
    }
}

/// The pitch classes sounding from a tick across all tracks, track by track.
pub open spec fn sonority(tracks: Seq<TrackIr>, tick: u32) -> Seq<PitchClass>
    decreases tracks.len(),
{
    if tracks.len() == 0 {
        Seq::empty()
    } else {
        sonority(tracks.drop_last(), tick) + classes_at(tracks.last().events@, tick)
    }
}

pub fn sonority_at(tracks: &[TrackIr], tick: u32) -> (r: Vec<PitchClass>)
    ensures
        r@ == sonority(tracks@, tick),
{
    let mut out: Vec<PitchClass> = Vec::new();
    let mut t: usize = 0;
    while t < tracks.len()
        invariant
            t <= tracks@.len(),
            out@ == sonority(tracks@.take(t as int), tick),
        decreases tracks@.len() - t,
    {
        let events = &tracks[t].events;
        let ghost before = out@;
        let mut i: usize = 0;
        while i < events.len()
            invariant
                i <= events@.len(),
                events@ == tracks@[t as int].events@,
                out@ == before + classes_at(events@.take(i as int), tick),
            decreases events@.len() - i,
        {
            assert(events@.take(i + 1).drop_last() =~= events@.take(i as int));
            if events[i].start_tick == tick {
                out.push(events[i].pitch.class());
            }
            i = i + 1;
        }
        proof {
            assert(events@.take(i as int) =~= events@);
            assert(tracks@.take(t + 1).drop_last() =~= tracks@.take(t as int));
        }
        t = t + 1;
    }
    assert(tracks@.take(t as int) =~= tracks@);
    out
}

/// Whether some event of some track starts at a tick.
pub open spec fn any_starts_at(tracks: Seq<TrackIr>, tick: u32) -> bool {
    exists|k: int| 0 <= k < tracks.len() && starts_at((#[trigger] tracks[k]).events@, tick)
}

/// Whether a tick sequence lists the distinct start ticks of all tracks in increasing order.
pub open spec fn lists_attacks(ticks: Seq<u32>, tracks: Seq<TrackIr>) -> bool {
    &&& strictly_increasing(ticks)
    &&& forall|t: u32| ticks.contains(t) <==> any_starts_at(tracks, t)
}

/// The distinct start ticks of all tracks, in increasing order.
pub open spec fn attack_ticks(tracks: Seq<TrackIr>) -> Seq<u32> {
    choose|ticks: Seq<u32>| lists_attacks(ticks, tracks)
}

/// The sonority at each distinct start tick, in order.
pub open spec fn sonorities(tracks: Seq<TrackIr>) -> Seq<Seq<PitchClass>> {
    attack_ticks(tracks).map_values(|t: u32| sonority(tracks, t))
}

proof fn lemma_attack_ticks(ticks: Seq<u32>, tracks: Seq<TrackIr>)
    requires
        lists_attacks(ticks, tracks),
    ensures
        attack_ticks(tracks) == ticks,
{
    let c = attack_ticks(tracks);
    assert(lists_attacks(c, tracks));
    lemma_increasing_unique(c, ticks);
}

/// The distinct start ticks of all tracks, in increasing order.
pub fn all_ticks(tracks: &[TrackIr]) -> (r: Vec<u32>)
    ensures
        r@ == attack_ticks(tracks@),
        strictly_increasing(r@),
        forall|t: u32| r@.contains(t) <==> any_starts_at(tracks@, t),
{
    let mut ticks: Vec<u32> = Vec::new();
    let mut k: usize = 0;
    while k < tracks.len()
        invariant
            k <= tracks@.len(),
            strictly_increasing(ticks@),
            forall|t: u32| ticks@.contains(t) <==> any_starts_at(tracks@.take(k as int), t),
        decreases tracks@.len() - k,
    {
        let grid = attack_grid(&tracks[k]);
        let ghost before = ticks@;
        let mut i: usize = 0;
        while i < grid.len()
            invariant
                i <= grid@.len(),
                strictly_increasing(ticks@),
                forall|t: u32| ticks@.contains(t) <==> (before.contains(t) || grid@.take(i as int).contains(t)),
            decreases grid@.len() - i,
        {
            let ghost pre = ticks@;
            assert(forall|t: u32| #[trigger] pre.contains(t) <==> (before.contains(t) || grid@.take(i as int).contains(t)));
            insert_tick(&mut ticks, grid[i]);
            proof {
                let g0 = grid@.take(i as int);
                let g1 = grid@.take(i + 1);
                assert forall|t: u32| g1.contains(t) <==> (g0.contains(t) || t == grid@[i as int]) by {
                    if g1.contains(t) {
                        let j = choose|j: int| 0 <= j < g1.len() && g1[j] == t;
                        if j < i {
                            assert(g0[j] == t);
                        }
                    }
                    if g0.contains(t) {
                        let j = choose|j: int| 0 <= j < g0.len() && g0[j] == t;
                        assert(g1[j] == t);
                    }
                    if t == grid@[i as int] {
                        assert(g1[i as int] == t);
                    }
                }
                assert forall|t: u32| ticks@.contains(t) <==> (before.contains(t) || g1.contains(t)) by {
                    assert(ticks@.contains(t) <==> (pre.contains(t) || t == grid@[i as int]));
                    assert(pre.contains(t) <==> (before.contains(t) || g0.contains(t)));
                    assert(g1.contains(t) <==> (g0.contains(t) || t == grid@[i as int]));
                }
            }
            i = i + 1;
        }
        proof {
            assert(grid@.take(i as int) =~= grid@);
            let prev = tracks@.take(k as int);
            let next = tracks@.take(k + 1);
            assert forall|t: u32| ticks@.contains(t) <==> any_starts_at(next, t) by {
                if any_starts_at(next, t) {
                    let j = choose|j: int| 0 <= j < next.len() && starts_at((#[trigger] next[j]).events@, t);
                    if j < k {
                        assert(prev[j] == next[j]);
                        assert(any_starts_at(prev, t));
                    } else {
                        assert(next[j] == tracks@[k as int]);
                        assert(grid@.contains(t));
                    }
                }
                if before.contains(t) {
                    assert(any_starts_at(prev, t));
                    let j = choose|j: int| 0 <= j < prev.len() && starts_at((#[trigger] prev[j]).events@, t);
                    assert(next[j] == prev[j]);
                }
                if grid@.contains(t) {
                    assert(next[k as int] == tracks@[k as int]);
                    assert(starts_at(next[k as int].events@, t));
                }
            }
        }
        k = k + 1;
    }
    assert(tracks@.take(k as int) =~= tracks@);
    proof {
        lemma_attack_ticks(ticks@, tracks@);
    }
    ticks
}

/// The sonorities at each distinct start tick, in order.
pub fn sonority_sequence(tracks: &[TrackIr]) -> (r: Vec<Vec<PitchClass>>)
    ensures
        class_views(r@) == sonorities(tracks@),
{
    let ticks = all_ticks(tracks);
    let mut out: Vec<Vec<PitchClass>> = Vec::new();
    let mut i: usize = 0;
    while i < ticks.len()
        invariant
            i <= ticks@.len(),
            out@.len() == i,
            forall|k: int| 0 <= k < i ==> (#[trigger] out@[k])@ == sonority(tracks@, ticks@[k]),
        decreases ticks@.len() - i,
    {
        out.push(sonority_at(tracks, ticks[i]));
        i = i + 1;
    }
    assert(class_views(out@) =~= sonorities(tracks@));
    out
}

/// The sonorities at the last two distinct start ticks, where there are two.
pub fn final_sonorities(tracks: &[TrackIr]) -> (r: Option<(Vec<PitchClass>, Vec<PitchClass>)>)
    ensures
        r is Some <==> sonorities(tracks@).len() >= 2,
        r matches Some((a, b)) ==> a@ == sonorities(tracks@)[sonorities(tracks@).len() - 2]
            && b@ == sonorities(tracks@).last(),
{
    let ticks = all_ticks(tracks);
    let n = ticks.len();
    if n < 2 {
        return None;
    }
    Some((sonority_at(tracks, ticks[n - 2]), sonority_at(tracks, ticks[n - 1])))
}

/// The harmonic functions of a sequence of sonorities, skipping those with none.
pub open spec fn functions_of(sonorities: Seq<Seq<PitchClass>>) -> Seq<Seq<char>>
    decreases sonorities.len(),
{
    if sonorities.len() == 0 {
        Seq::empty()
    } else {
        let rest = functions_of(sonorities.drop_last());
        match function_of(sonorities.last()) {
            Some(f) => rest.push(f),
            None => rest,
        }
    }
}

/// The views of a sequence of pitch-class vectors.
pub open spec fn class_views(v: Seq<Vec<PitchClass>>) -> Seq<Seq<PitchClass>> {
    v.map_values(|x: Vec<PitchClass>| x@)
}

/// The harmonic function of each sonority of the score that has one, in order.
pub fn harmonic_functions(tracks: &[TrackIr]) -> (r: Vec<String>)
    ensures
        crate::text::views(r@) == functions_of(sonorities(tracks@)),
{
    let sons = sonority_sequence(tracks);
    let mut out: Vec<String> = Vec::new();
    let mut i: usize = 0;
    while i < sons.len()
        invariant
            i <= sons@.len(),
            crate::text::views(out@) == functions_of(class_views(sons@.take(i as int))),
        decreases sons@.len() - i,
    {
        proof {
            assert(class_views(sons@.take(i + 1)).drop_last() =~= class_views(sons@.take(i as int)));
        }
        match harmonic_function(sons[i].as_slice()) {
            Some(f) => {
                out.push(crate::text::owned(f));
                assert(crate::text::views(out@) =~= crate::text::views(out@.drop_last()).push(f@));
            },
            None => {},
        }
        i = i + 1;
    }
    assert(sons@.take(i as int) =~= sons@);
    out
}

} // verus!
