use vstd::prelude::*;

use crate::analysis::step_semitones;
use crate::analysis::pattern_step_semitones;
use crate::ir::Meter;
use crate::music::{
    class_of_semitone, midi_result, pitch_class_from_text, pitch_literal, semitone_of, Pitch,
    PitchClass,
};
use crate::style::InstrumentRange;
use crate::text::{
    concat3, decimal, parse_int_spec, parse_u8, split_whitespace, str_eq, u64_text, views, words,
};
use crate::theory::{entry_index, has_entry, TheoryCatalog, TheoryDomain};

verus! {

/// The views of a list of static strings.
pub open spec fn str_views(v: Seq<&'static str>) -> Seq<Seq<char>> {
    v.map_values(|s: &'static str| s@)
}

pub fn theory_entry_exists(catalog: &TheoryCatalog, domain: TheoryDomain, entry_id: &str) -> (r:
    bool)
    ensures
        r == has_entry(catalog.entries_spec(domain), entry_id@),
{
    catalog.entry_position(domain, entry_id).is_some()
}

/// The pitch classes that the words spell, skipping words that spell none.
pub open spec fn classes_in(ws: Seq<Seq<char>>) -> Seq<PitchClass>
    decreases ws.len(),
{
    if ws.len() == 0 {
        Seq::empty()
    } else {
        let rest = classes_in(ws.drop_last());
        match pitch_class_from_text(ws.last()) {
            Some(c) => rest.push(c),
            None => rest,
        }
    }
}

/// The pitch classes of one chord of a `chord_vocab` entry; `None` when it spells none.
pub fn parse_chord_classes(value: &str) -> (r: Option<Vec<PitchClass>>)
    ensures
        match r {
            Some(v) => v@ == classes_in(words(value@)) && v@.len() > 0,
            None => classes_in(words(value@)).len() == 0,
        },
{
    let parts = split_whitespace(value);
    let mut classes: Vec<PitchClass> = Vec::new();
    let mut i: usize = 0;
    while i < parts.len()
        invariant
            i <= parts@.len(),
            views(parts@) == words(value@),
            classes@ == classes_in(views(parts@).take(i as int)),
        decreases parts@.len() - i,
    {
        assert(views(parts@).take(i + 1).drop_last() =~= views(parts@).take(i as int));
        assert(views(parts@).take(i + 1).last() == parts@[i as int]@);
        match PitchClass::parse(parts[i].as_str()) {
            Ok(c) => classes.push(c),
            Err(_) => {},
        }
        i = i + 1;
    }
    assert(views(parts@).take(i as int) =~= views(parts@));
    if classes.len() == 0 {
        None
    } else {
        Some(classes)
    }
}

/// The interval of pitch `i` above the first pitch, in semitones modulo 12.
pub open spec fn rel(pitches: Seq<Pitch>, i: int) -> int {
    (semitone_of(pitches[i].class_spec()) - semitone_of(pitches[0].class_spec()) + 12) % 12
}

/// Whether some pitch lies `k` semitones (modulo 12) above the first.
pub open spec fn interval_present(pitches: Seq<Pitch>, k: int) -> bool {
    exists|i: int| 0 <= i < pitches.len() && #[trigger] rel(pitches, i) == k
}

/// How many of the intervals `0..n` occur.
pub open spec fn present_count(pitches: Seq<Pitch>, n: int) -> nat
    decreases n,
{
    if n <= 0 {
        0
    } else {
        present_count(pitches, n - 1) + if interval_present(pitches, n - 1) {
            1nat
        } else {
            0nat
        }
    }
}

/// Whether a pattern step names an interval that occurs.
pub open spec fn step_present(pitches: Seq<Pitch>, step: Seq<char>) -> bool {
    exists|k: int| 0 <= k < 12 && interval_present(pitches, k) && #[trigger] decimal(k as nat) == step
}

/// A catalog pattern names exactly the intervals of the pitches above the first.
pub open spec fn pattern_fits(pattern: Seq<&'static str>, pitches: Seq<Pitch>) -> bool {
    &&& pattern.len() == present_count(pitches, 12)
    &&& forall|j: int| 0 <= j < pattern.len() ==> step_present(pitches, (#[trigger] pattern[j])@)
}

/// Whether the pitches match the catalog entry `id` of `domain`, read as intervals.
pub open spec fn chord_fits(
    catalog: TheoryCatalog,
    domain: TheoryDomain,
    pitches: Seq<Pitch>,
    id: Seq<char>,
) -> bool {
    let es = catalog.entries_spec(domain);
    let k = entry_index(es, id);
    &&& pitches.len() > 0
    &&& k >= 0
    &&& pattern_fits(es[k].pattern@, pitches)
}

fn interval_flags(pitches: &[Pitch]) -> (r: Vec<bool>)
    requires
        pitches@.len() > 0,
    ensures
        r@.len() == 12,
        forall|k: int| 0 <= k < 12 ==> r@[k] == interval_present(pitches@, k),
{
    let root = pitches[0].class().semitone();
    let mut flags: Vec<bool> = vec![false, false, false, false, false, false, false, false, false, false, false, false];
    let mut i: usize = 0;
    while i < pitches.len()
        invariant
            i <= pitches@.len(),
            pitches@.len() > 0,
            root == semitone_of(pitches@[0].class_spec()),
            flags@.len() == 12,
            forall|k: int|
                0 <= k < 12 ==> flags@[k] == exists|j: int| 0 <= j < i && #[trigger] rel(pitches@, j) == k,
        decreases pitches@.len() - i,
    {
        let s = pitches[i].class().semitone();
        let k: usize = ((s - root + 12) % 12) as usize;
        assert(k as int == rel(pitches@, i as int));
        flags.set(k, true);
        assert forall|m: int| 0 <= m < 12 implies flags@[m] == exists|j: int|
            0 <= j < i + 1 && #[trigger] rel(pitches@, j) == m by {
            if m != k {
                if exists|j: int| 0 <= j < i + 1 && #[trigger] rel(pitches@, j) == m {
                    let j = choose|j: int| 0 <= j < i + 1 && #[trigger] rel(pitches@, j) == m;
                    assert(j != i);
                }
            }
        }
        i = i + 1;
    }
    flags
}

fn count_flags(flags: &Vec<bool>, pitches: &[Pitch]) -> (r: usize)
    requires
        flags@.len() == 12,
        forall|k: int| 0 <= k < 12 ==> flags@[k] == interval_present(pitches@, k),
    ensures
        r == present_count(pitches@, 12),
{
    let mut count: usize = 0;
    let mut k: usize = 0;
    while k < 12
        invariant
            k <= 12,
            flags@.len() == 12,
            forall|m: int| 0 <= m < 12 ==> flags@[m] == interval_present(pitches@, m),
            count == present_count(pitches@, k as int),
            count <= k,
        decreases 12 - k,
    {
        if flags[k] {
            count = count + 1;
        }
        k = k + 1;
    }
    count
}

fn step_named(flags: &Vec<bool>, pitches: &[Pitch], step: &str) -> (r: bool)
    requires
        flags@.len() == 12,
        forall|k: int| 0 <= k < 12 ==> flags@[k] == interval_present(pitches@, k),
    ensures
        r == step_present(pitches@, step@),
{
    let mut k: usize = 0;
    while k < 12
        invariant
            k <= 12,
            flags@.len() == 12,
            forall|m: int| 0 <= m < 12 ==> flags@[m] == interval_present(pitches@, m),
            forall|m: int|
                0 <= m < k ==> !(interval_present(pitches@, m) && #[trigger] decimal(m as nat)
                    == step@),
        decreases 12 - k,
    {
        if flags[k] && str_eq(u64_text(k as u64).as_str(), step) {
            let ghost kk: int = k as int;
            assert(0 <= kk < 12 && interval_present(pitches@, kk) && decimal(kk as nat) == step@);
            return true;
        }
        k = k + 1;
    }
    false
}

/// Whether the pitches, read as intervals above the first, match catalog entry `id`.
pub fn chord_matches_pattern(
    catalog: &TheoryCatalog,
    domain: TheoryDomain,
    pitches: &[Pitch],
    id: &str,
) -> (r: bool)
    ensures
        r == chord_fits(*catalog, domain, pitches@, id@),
{
    if pitches.len() == 0 {
        return false;
    }
    let position = match catalog.entry_position(domain, id) {
        Some(p) => p,
        None => return false,
    };
    let entry = &catalog.entries(domain)[position];
    let ghost es = catalog.entries_spec(domain);
    assert(entry.pattern@ == es[entry_index(es, id@)].pattern@);
    let flags = interval_flags(pitches);
    let count = count_flags(&flags, pitches);
    if entry.pattern.len() != count {
        return false;
    }
    let mut j: usize = 0;
    while j < entry.pattern.len()
        invariant
            j <= entry.pattern@.len(),
            es == catalog.entries_spec(domain),
            entry_index(es, id@) >= 0,
            entry.pattern@ == es[entry_index(es, id@)].pattern@,
            pitches@.len() > 0,
            entry.pattern@.len() == present_count(pitches@, 12),
            flags@.len() == 12,
            forall|k: int| 0 <= k < 12 ==> flags@[k] == interval_present(pitches@, k),
            forall|m: int| 0 <= m < j ==> step_present(pitches@, (#[trigger] entry.pattern@[m])@),
        decreases entry.pattern@.len() - j,
    {
        if !step_named(&flags, pitches, entry.pattern[j]) {
            return false;
        }
        j = j + 1;
    }
    assert(pattern_fits(entry.pattern@, pitches@));
    true
}

pub fn chord_matches_quality(catalog: &TheoryCatalog, pitches: &[Pitch], quality: &str) -> (r: bool)
    ensures
        r == chord_fits(*catalog, TheoryDomain::ChordQualities, pitches@, quality@),
{
    chord_matches_pattern(catalog, TheoryDomain::ChordQualities, pitches, quality)
}

pub fn chord_matches_set_class(catalog: &TheoryCatalog, pitches: &[Pitch], set_class: &str) -> (r:
    bool)
    ensures
        r == chord_fits(*catalog, TheoryDomain::SetClasses, pitches@, set_class@),
{
    chord_matches_pattern(catalog, TheoryDomain::SetClasses, pitches, set_class)
}

/// The velocity that a dynamic mark stands for: the first pattern value of its catalog entry.
pub open spec fn velocity_of(catalog: TheoryCatalog, mark: Seq<char>) -> Option<int> {
    let es = catalog.entries_spec(TheoryDomain::Dynamics);
    let k = entry_index(es, mark);
    if k < 0 || es[k].pattern@.len() == 0 {
        None
    } else {
        parse_int_spec(es[k].pattern@[0]@, false, 0, 255)
    }
}

pub fn dynamic_velocity(catalog: &TheoryCatalog, mark: &str) -> (r: Option<u8>)
    ensures
        match r {
            Some(v) => velocity_of(*catalog, mark@) == Some(v as int),
            None => velocity_of(*catalog, mark@) is None,
        },
{
    let position = match catalog.entry_position(TheoryDomain::Dynamics, mark) {
        Some(p) => p,
        None => return None,
    };
    let entry = &catalog.entries(TheoryDomain::Dynamics)[position];
    if entry.pattern.len() == 0 {
        return None;
    }
    parse_u8(entry.pattern[0])
}

/// The position reached from `t` after the steps that parse.
pub open spec fn walk(t: int, steps: Seq<&'static str>) -> int
    decreases steps.len(),
{
    if steps.len() == 0 {
        t
    } else {
        let p = walk(t, steps.drop_last());
        match step_semitones(steps.last()@) {
            Some(v) => p + v,
            None => p,
        }
    }
}

/// Whether a pitch class is reached from the tonic by some prefix of the steps.
pub open spec fn reaches(tonic: PitchClass, steps: Seq<&'static str>, c: PitchClass) -> bool {
    exists|j: int|
        0 <= j <= steps.len() && c == class_of_semitone(
            walk(semitone_of(tonic), #[trigger] steps.take(j)),
        )
}

/// Whether a pattern, where there is one, reaches a pitch class.
pub open spec fn pattern_reaches(o: Option<(PitchClass, Seq<&'static str>)>, c: PitchClass) -> bool {
    match o {
        Some((tonic, steps)) => reaches(tonic, steps, c),
        None => false,
    }
}

/// What `tonic entry` in a `scale_pattern` or `mode_pattern` value stands for.
pub open spec fn catalog_pattern_classes(
    catalog: TheoryCatalog,
    value: Seq<char>,
    domain: TheoryDomain,
) -> Option<(PitchClass, Seq<&'static str>)> {
    let ws = words(value);
    if ws.len() < 1 {
        None
    } else {
        match pitch_class_from_text(ws[0]) {
            None => None,
            Some(tonic) => if ws.len() < 2 {
                None
            } else {
                let es = catalog.entries_spec(domain);
                let k = entry_index(es, ws[1]);
                if k < 0 {
                    None
                } else {
                    Some((tonic, es[k].pattern@))
                }
            },
        }
    }
}

/// The pitch classes of a catalog scale or mode built on a tonic, in semitone order.
/// Pitch classes listed once each, in the order of their semitones (as a sorted set keeps them).
pub open spec fn classes_ascending(v: Seq<PitchClass>) -> bool {
    forall|i: int, j: int| 0 <= i < j < v.len() ==> semitone_of(#[trigger] v[i]) < semitone_of(#[trigger] v[j])
}

#[verifier::spinoff_prover]
#[verifier::rlimit(30)]
pub fn parse_catalog_pitch_class_pattern(
    catalog: &TheoryCatalog,
    value: &str,
    domain: TheoryDomain,
) -> (r: Option<Vec<PitchClass>>)
    ensures
        r is Some <==> catalog_pattern_classes(*catalog, value@, domain) is Some,
        r matches Some(v) ==> forall|c: PitchClass|
            v@.contains(c) <==> pattern_reaches(catalog_pattern_classes(*catalog, value@, domain), c),
        r matches Some(v) ==> classes_ascending(v@),
{
    let parts = split_whitespace(value);
    assert(views(parts@) == words(value@));
    if parts.len() < 1 {
        return None;
    }
    assert(views(parts@)[0] == parts@[0]@);
    let tonic = match PitchClass::parse(parts[0].as_str()) {
        Ok(c) => c,
        Err(_) => return None,
    };
    if parts.len() < 2 {
        return None;
    }
    assert(views(parts@)[1] == parts@[1]@);
    let position = match catalog.entry_position(domain, parts[1].as_str()) {
        Some(p) => p,
        None => return None,
    };
    let entry = &catalog.entries(domain)[position];
    let steps = &entry.pattern;
    let ghost t0 = semitone_of(tonic);
    let mut flags: Vec<bool> = vec![false, false, false, false, false, false, false, false, false, false, false, false];
    let start = tonic.semitone();
    flags.set(start as usize, true);
    let mut current: i32 = start as i32;
    let mut i: usize = 0;
    assert(steps@.take(0) =~= Seq::<&'static str>::empty());
    assert(walk(t0, steps@.take(0)) == t0);
    assert(walk(t0, steps@.take(0)) % 12 == start as int);
    assert forall|k: int| 0 <= k < 12 implies flags@[k] == exists|j: int|
        0 <= j <= 0 && #[trigger] (walk(t0, steps@.take(j)) % 12) == k by {
        if exists|j: int| 0 <= j <= 0 && #[trigger] (walk(t0, steps@.take(j)) % 12) == k {
            let j = choose|j: int| 0 <= j <= 0 && #[trigger] (walk(t0, steps@.take(j)) % 12) == k;
            assert(j == 0);
        }
    }
    while i < steps.len()
        invariant
            i <= steps@.len(),
            flags@.len() == 12,
            0 <= current < 12,
            t0 == semitone_of(tonic),
            current == walk(t0, steps@.take(i as int)) % 12,
            forall|k: int|
                0 <= k < 12 ==> flags@[k] == exists|j: int|
                    0 <= j <= i && #[trigger] (walk(t0, steps@.take(j)) % 12) == k,
        decreases steps@.len() - i,
    {
        let ghost before = walk(t0, steps@.take(i as int));
        assert(steps@.take(i + 1).drop_last() =~= steps@.take(i as int));
        match pattern_step_semitones(steps[i]) {
            Some(v) => {
                let next = ((current + v as i32) % 12 + 12) % 12;
                assert(next == (before + v) % 12) by {
                    assert(current == before % 12);
                }
                current = next;
            },
            None => {},
        }
        assert(current == walk(t0, steps@.take(i + 1)) % 12);
        flags.set(current as usize, true);
        assert forall|k: int| 0 <= k < 12 implies flags@[k] == exists|j: int|
            0 <= j <= i + 1 && #[trigger] (walk(t0, steps@.take(j)) % 12) == k by {
            if k != current {
                if exists|j: int| 0 <= j <= i + 1 && #[trigger] (walk(t0, steps@.take(j)) % 12) == k {
                    let j = choose|j: int|
                        0 <= j <= i + 1 && #[trigger] (walk(t0, steps@.take(j)) % 12) == k;
                    assert(j != i + 1);
                }
            } else {
                assert(walk(t0, steps@.take(i + 1)) % 12 == k);
            }
        }
        i = i + 1;
    }
    assert(steps@.take(i as int) =~= steps@);
    let mut out: Vec<PitchClass> = Vec::new();
    let mut k: usize = 0;
    while k < 12
        invariant
            k <= 12,
            flags@.len() == 12,
            i == steps@.len(),
            forall|m: int|
                0 <= m < 12 ==> flags@[m] == exists|j: int|
                    0 <= j <= i && #[trigger] (walk(t0, steps@.take(j)) % 12) == m,
            forall|c: PitchClass|
                out@.contains(c) <==> (semitone_of(c) < k && flags@[semitone_of(c)]),
            classes_ascending(out@),
            forall|m: int| 0 <= m < out@.len() ==> semitone_of(#[trigger] out@[m]) < k,
        decreases 12 - k,
    {
        if flags[k] {
            let c = PitchClass::from_semitone(k as i16);
            assert(semitone_of(c) == k);
            let ghost prev = out@;
            out.push(c);
            assert(out@ == prev.push(c));
            assert forall|d: PitchClass| out@.contains(d) <==> (semitone_of(d) < k + 1 && flags@[semitone_of(d)]) by {
                if out@.contains(d) {
                    let idx = choose|idx: int| 0 <= idx < out@.len() && out@[idx] == d;
                    if idx < prev.len() {
                        assert(prev[idx] == d);
                        assert(prev.contains(d));
                    }
                }
                if semitone_of(d) < k && flags@[semitone_of(d)] {
                    assert(prev.contains(d));
                    let idx = choose|idx: int| 0 <= idx < prev.len() && prev[idx] == d;
                    assert(out@[idx] == d);
                }
                if semitone_of(d) == k {
                    assert(d == c);
                    assert(out@[prev.len() as int] == c);
                }
            }
        } else {
            assert forall|d: PitchClass| out@.contains(d) <==> (semitone_of(d) < k + 1 && flags@[semitone_of(d)]) by {
            }
        }
        k = k + 1;
    }
    assert forall|c: PitchClass| out@.contains(c) <==> reaches(tonic, steps@, c) by {
        if out@.contains(c) {
            let j = choose|j: int| 0 <= j <= i && #[trigger] (walk(t0, steps@.take(j)) % 12) == semitone_of(c);
            assert(c == class_of_semitone(walk(t0, steps@.take(j))));
        }
        if reaches(tonic, steps@, c) {
            let j = choose|j: int|
                0 <= j <= steps@.len() && c == class_of_semitone(walk(semitone_of(tonic), #[trigger] steps@.take(j)));
            assert(walk(t0, steps@.take(j)) % 12 == semitone_of(c));
            assert(flags@[semitone_of(c)]);
        }
    }
    Some(out)
}

pub fn parse_scale_pattern(catalog: &TheoryCatalog, value: &str) -> (r: Option<Vec<PitchClass>>)
    ensures
        r is Some <==> catalog_pattern_classes(*catalog, value@, TheoryDomain::Scales) is Some,
        r matches Some(v) ==> forall|c: PitchClass|
            v@.contains(c) <==> pattern_reaches(catalog_pattern_classes(*catalog, value@, TheoryDomain::Scales), c),
        r matches Some(v) ==> classes_ascending(v@),
{
    parse_catalog_pitch_class_pattern(catalog, value, TheoryDomain::Scales)
}

pub fn parse_mode_pattern(catalog: &TheoryCatalog, value: &str) -> (r: Option<Vec<PitchClass>>)
    ensures
        r is Some <==> catalog_pattern_classes(*catalog, value@, TheoryDomain::Modes) is Some,
        r matches Some(v) ==> forall|c: PitchClass|
            v@.contains(c) <==> pattern_reaches(catalog_pattern_classes(*catalog, value@, TheoryDomain::Modes), c),
        r matches Some(v) ==> classes_ascending(v@),
{
    parse_catalog_pitch_class_pattern(catalog, value, TheoryDomain::Modes)
}

/// A meter written as the catalog writes it: `numerator/denominator`.
pub open spec fn meter_text(meter: Meter) -> Seq<char> {
    decimal(meter.numerator as nat) + "/"@ + decimal(meter.denominator as nat)
}

/// Whether `entry_id` is a catalog meter and names this meter.
pub fn meter_matches_catalog(catalog: &TheoryCatalog, meter: Meter, entry_id: &str) -> (r: bool)
    ensures
        r == (entry_id@ == meter_text(meter) && has_entry(
            catalog.entries_spec(TheoryDomain::Meters),
            entry_id@,
        )),
{
    let n = u64_text(meter.numerator as u64);
    let d = u64_text(meter.denominator as u64);
    let id = concat3(n.as_str(), "/", d.as_str());
    str_eq(entry_id, id.as_str()) && theory_entry_exists(catalog, TheoryDomain::Meters, entry_id)
}

/// Whether the section labels, in order, are exactly the pattern of catalog form `entry_id`.
pub open spec fn form_fits(catalog: TheoryCatalog, labels: Seq<Seq<char>>, entry_id: Seq<char>) -> bool {
    let es = catalog.entries_spec(TheoryDomain::Forms);
    let k = entry_index(es, entry_id);
    k >= 0 && labels == str_views(es[k].pattern@)
}

pub fn form_labels_match_catalog(catalog: &TheoryCatalog, labels: &[String], entry_id: &str) -> (r:
    bool)
    ensures
        r == form_fits(*catalog, views(labels@), entry_id@),
{
    let position = match catalog.entry_position(TheoryDomain::Forms, entry_id) {
        Some(p) => p,
        None => return false,
    };
    let pattern = &catalog.entries(TheoryDomain::Forms)[position].pattern;
    let ghost es = catalog.entries_spec(TheoryDomain::Forms);
    assert(pattern@ == es[entry_index(es, entry_id@)].pattern@);
    if labels.len() != pattern.len() {
        assert(views(labels@).len() != str_views(pattern@).len());
        return false;
    }
    let mut i: usize = 0;
    while i < labels.len()
        invariant
            i <= labels@.len(),
            es == catalog.entries_spec(TheoryDomain::Forms),
            entry_index(es, entry_id@) >= 0,
            pattern@ == es[entry_index(es, entry_id@)].pattern@,
            labels@.len() == pattern@.len(),
            forall|k: int| 0 <= k < i ==> labels@[k]@ == pattern@[k]@,
        decreases labels@.len() - i,
    {
        if !str_eq(labels[i].as_str(), pattern[i]) {
            assert(views(labels@)[i as int] != str_views(pattern@)[i as int]);
            return false;
        }
        i = i + 1;
    }
    assert(views(labels@) =~= str_views(pattern@));
    true
}

/// A pitch literal that names a MIDI pitch.
pub open spec fn playable_pitch(t: Seq<char>) -> Option<(PitchClass, i8)> {
    match pitch_literal(t) {
        Some((c, o)) => if midi_result(c, o) is Ok {
            Some((c, o))
        } else {
            None
        },
        None => None,
    }
}

/// What an `instrument_range` entry (`program low high`) says.
pub open spec fn instrument_range_of(value: Seq<char>) -> Option<(int, (PitchClass, i8), (PitchClass, i8))> {
    let ws = words(value);
    if ws.len() < 1 {
        None
    } else {
        match parse_int_spec(ws[0], false, 0, 255) {
            None => None,
            Some(program) => if ws.len() < 2 {
                None
            } else {
                match playable_pitch(ws[1]) {
                    None => None,
                    Some(low) => if ws.len() < 3 {
                        None
                    } else {
                        match playable_pitch(ws[2]) {
                            None => None,
                            Some(high) => Some((program, low, high)),
                        }
                    },
                }
            },
        }
    }
}

pub fn parse_instrument_range(value: &str) -> (r: Option<InstrumentRange>)
    ensures
        r is Some <==> instrument_range_of(value@) is Some,
        r matches Some(range) ==> instrument_range_of(value@) == Some(
            (
                range.program as int,
                (range.low.class_spec(), range.low.octave_spec()),
                (range.high.class_spec(), range.high.octave_spec()),
            ),
        ),
{
    let parts = split_whitespace(value);
    assert(views(parts@) == words(value@));
    if parts.len() < 1 {
        return None;
    }
    assert(views(parts@)[0] == parts@[0]@);
    let program = match parse_u8(parts[0].as_str()) {
        Some(p) => p,
        None => return None,
    };
    if parts.len() < 2 {
        return None;
    }
    assert(views(parts@)[1] == parts@[1]@);
    let low = match Pitch::parse(parts[1].as_str()) {
        Ok(p) => p,
        Err(_) => return None,
    };
    if parts.len() < 3 {
        return None;
    }
    assert(views(parts@)[2] == parts@[2]@);
    let high = match Pitch::parse(parts[2].as_str()) {
        Ok(p) => p,
        Err(_) => return None,
    };
    Some(InstrumentRange { program, low, high })
}

} // verus!
