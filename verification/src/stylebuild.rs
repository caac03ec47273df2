use vstd::prelude::*;

use crate::analysis::{parse_meter, parse_rule_severity};
use crate::ast::{Program, StyleDecl, StyleEntry};
use crate::diagnostic::{Diagnostic, Severity};
use crate::ir::Meter;
use crate::music::{Duration, Interval, PitchClass};
use crate::style::{CustomStyleRule, CustomTheoryDomain, StyleContext, TheoryReference};
use crate::style::{style_model, StyleModel};
use crate::text::{
    concat3, has_prefix, owned, parse_int_spec, parse_u16, split_char, split_char_spec,
    split_dotdot_spec, split_once_dotdot, split_whitespace, starts_with, str_eq, strip_prefix, trim,
    trim_seq, views, words,
};
use crate::theory::{TheoryCatalog, TheoryDomain};
use crate::vocab::{
    parse_chord_classes, parse_instrument_range, parse_mode_pattern, parse_scale_pattern,
    theory_entry_exists,
};

verus! {

/// The codes of the diagnostics that building a style can give.
pub open spec fn style_code(c: Seq<char>) -> bool {
    ||| c == "ML_STYLE_INHERITANCE_CYCLE"@
    ||| c == "ML_STYLE_UNKNOWN_NAME"@
    ||| c == "ML_STYLE_UNKNOWN_THEORY_ENTRY"@
    ||| c == "ML_STYLE_UNKNOWN_KEY"@
}

/// The durations that words spell, as reduced fractions; other words are skipped.
pub open spec fn durations_in(ws: Seq<Seq<char>>) -> Seq<(nat, nat)>
    decreases ws.len(),
{
    if ws.len() == 0 {
        Seq::empty()
    } else {
        let rest = durations_in(ws.drop_last());
        match crate::music::duration_literal(ws.last()) {
            Some((n, d)) => match crate::music::duration_result(n, d) {
                Ok(p) => rest.push(p),
                Err(_) => rest,
            },
            None => rest,
        }
    }
}

/// The chords of a `chord_vocab` value: each `;`-separated part that spells pitch classes.
pub open spec fn chords_in(parts: Seq<Seq<char>>) -> Seq<Seq<PitchClass>>
    decreases parts.len(),
{
    if parts.len() == 0 {
        Seq::empty()
    } else {
        let rest = chords_in(parts.drop_last());
        let c = crate::vocab::classes_in(words(parts.last()));
        if c.len() > 0 {
            rest.push(c)
        } else {
            rest
        }
    }
}

/// A `min..max` tempo range, both ends trimmed.
pub open spec fn tempo_range_from(value: Seq<char>) -> Option<(u16, u16)> {
    match split_dotdot_spec(value) {
        Some((a, b)) => match (
            parse_int_spec(trim_seq(a), false, 0, 65535),
            parse_int_spec(trim_seq(b), false, 0, 65535),
        ) {
            (Some(x), Some(y)) => Some((x as u16, y as u16)),
            _ => None,
        },
        None => None,
    }
}

/// The references that some ids make into a domain: one `(domain, id)` for each
/// id that the domain knows, in order.
pub open spec fn refs_in(
    domain: Seq<char>,
    ids: Seq<Seq<char>>,
    known: spec_fn(Seq<char>) -> bool,
) -> Seq<(Seq<char>, Seq<char>)>
    decreases ids.len(),
{
    if ids.len() == 0 {
        Seq::empty()
    } else {
        refs_in(domain, ids.drop_last(), known) + if known(ids.last()) {
            seq![(domain, ids.last())]
        } else {
            Seq::empty()
        }
    }
}

/// The entries of the first custom domain with a name.
pub open spec fn custom_entries(
    domains: Seq<(Seq<char>, Seq<Seq<char>>)>,
    name: Seq<char>,
) -> Option<Seq<Seq<char>>>
    decreases domains.len(),
{
    if domains.len() == 0 {
        None
    } else if domains[0].0 == name {
        Some(domains[0].1)
    } else {
        custom_entries(domains.drop_first(), name)
    }
}

/// The model after one entry's declarations: a `theory_<name>` entry declares a
/// custom domain with the words of its value, a `rule_<id>` entry a custom rule, and
/// a `severity_<rule>` entry with a known severity sets that rule's severity.
pub open spec fn declare_entry(m: StyleModel, key: Seq<char>, value: Seq<char>) -> StyleModel {
    if has_prefix(key, "theory_"@) {
        StyleModel {
            custom_theory: m.custom_theory.push((key.skip("theory_"@.len() as int), words(value))),
            ..m
        }
    } else if has_prefix(key, "rule_"@) {
        StyleModel { custom_rules: m.custom_rules.push((key.skip("rule_"@.len() as int), value)), ..m }
    } else if has_prefix(key, "severity_"@) {
        match crate::analysis::severity_from_text(value) {
            Some(severity) => StyleModel {
                rule_severity: m.rule_severity.push((key.skip("severity_"@.len() as int), severity)),
                ..m
            },
            None => m,
        }
    } else {
        m
    }
}

/// The pitch classes that a catalog pattern reaches.
pub open spec fn pattern_set(catalog: TheoryCatalog, value: Seq<char>, domain: TheoryDomain) -> Set<
    PitchClass,
> {
    Set::new(
        |c: PitchClass|
            crate::vocab::pattern_reaches(crate::vocab::catalog_pattern_classes(catalog, value, domain), c),
    )
}

/// The model after one entry's setting. Declaration entries set nothing here. A
/// scale needs at least one class, a scale or mode pattern must name a catalog
/// entry, and a meter, tempo range or instrument range must parse; the other list
/// keys take the words of the value. A key that names a catalog domain, or a
/// declared custom domain, records a reference for each id that the domain knows.
pub open spec fn set_entry(catalog: TheoryCatalog, m: StyleModel, key: Seq<char>, value: Seq<char>) -> StyleModel {
    let ws = words(value);
    if has_prefix(key, "theory_"@) || has_prefix(key, "rule_"@) || has_prefix(key, "severity_"@) {
        m
    } else if key == "scale"@ {
        let c = crate::vocab::classes_in(ws);
        if c.len() > 0 {
            StyleModel { allowed_pitch_classes: Some(c.to_set()), ..m }
        } else {
            m
        }
    } else if key == "scale_pattern"@ {
        if crate::vocab::catalog_pattern_classes(catalog, value, TheoryDomain::Scales) is Some {
            StyleModel { allowed_pitch_classes: Some(pattern_set(catalog, value, TheoryDomain::Scales)), ..m }
        } else {
            m
        }
    } else if key == "mode_pattern"@ {
        if crate::vocab::catalog_pattern_classes(catalog, value, TheoryDomain::Modes) is Some {
            StyleModel { allowed_pitch_classes: Some(pattern_set(catalog, value, TheoryDomain::Modes)), ..m }
        } else {
            m
        }
    } else if key == "chord_vocab"@ {
        StyleModel { chord_vocab: chords_in(split_char_spec(value, ';')), ..m }
    } else if key == "chord_quality_vocab"@ {
        StyleModel { chord_quality_vocab: ws, ..m }
    } else if key == "set_class_vocab"@ {
        StyleModel { set_class_vocab: ws, ..m }
    } else if key == "rhythm_vocab"@ {
        StyleModel { rhythm_vocab: durations_in(ws), ..m }
    } else if key == "rhythm_concept"@ {
        StyleModel { rhythm_concepts: ws, ..m }
    } else if key == "dynamic_vocab"@ {
        StyleModel { dynamic_vocab: ws, ..m }
    } else if key == "articulation_vocab"@ {
        StyleModel { articulation_vocab: ws, ..m }
    } else if key == "ornament"@ {
        StyleModel { ornaments: ws, ..m }
    } else if key == "non_chord_tone"@ {
        StyleModel { non_chord_tones: ws, ..m }
    } else if key == "tuning_system"@ {
        StyleModel { tuning_systems: ws, ..m }
    } else if key == "world_tradition"@ {
        StyleModel { world_traditions: ws, ..m }
    } else if key == "historical_era"@ {
        StyleModel { historical_eras: ws, ..m }
    } else if key == "harmonic_function"@ {
        StyleModel { harmonic_functions: ws, ..m }
    } else if key == "max_melodic_leap"@ {
        StyleModel { max_melodic_leap: crate::music::interval_from_text(trim_seq(value)), ..m }
    } else if key == "contrapuntal_motion"@ {
        StyleModel { contrapuntal_motion: ws, ..m }
    } else if key == "cadence"@ {
        StyleModel { cadences: ws, ..m }
    } else if key == "harmonic_progression"@ {
        StyleModel { harmonic_progression: ws, ..m }
    } else if key == "texture"@ {
        StyleModel { texture: Some(trim_seq(value)), ..m }
    } else if key == "form"@ {
        StyleModel { form: Some(trim_seq(value)), ..m }
    } else if key == "meter"@ {
        match crate::analysis::meter_from_text(value) {
            Some((n, d)) => StyleModel {
                meter: Some(Meter { numerator: n as u8, denominator: d as u8 }),
                ..m
            },
            None => m,
        }
    } else if key == "meter_catalog"@ {
        StyleModel { meter_catalog: ws, ..m }
    } else if key == "tempo_range"@ {
        match tempo_range_from(value) {
            Some(range) => StyleModel { tempo_range: Some(range), ..m },
            None => m,
        }
    } else if key == "instrument_range"@ {
        match crate::vocab::instrument_range_of(value) {
            Some(range) => StyleModel { instrument_ranges: m.instrument_ranges.push(range), ..m },
            None => m,
        }
    } else {
        match crate::theory::domain_from_text(key) {
            Some(d) => StyleModel {
                theory: m.theory + refs_in(
                    crate::theory::domain_text(d),
                    ws,
                    |id: Seq<char>| crate::theory::has_entry(catalog.entries_spec(d), id),
                ),
                ..m
            },
            None => match custom_entries(m.custom_theory, key) {
                Some(es) => StyleModel {
                    theory: m.theory + refs_in(key, ws, |id: Seq<char>| es.contains(id)),
                    ..m
                },
                None => m,
            },
        }
    }
}

/// What one setting of a style reports, as codes and messages, given the custom domains
/// declared so far: for a key that lists entries of a catalog domain, or that names a catalog
/// domain or a declared custom domain, each word that the domain does not know; for a key
/// that is none of the known ones, the unknown key; nothing for the other keys.
pub open spec fn setting_reports(
    catalog: TheoryCatalog,
    custom: Seq<(Seq<char>, Seq<Seq<char>>)>,
    key: Seq<char>,
    value: Seq<char>,
) -> Seq<(Seq<char>, Seq<char>)> {
    let ws = words(value);
    if has_prefix(key, "theory_"@) || has_prefix(key, "rule_"@) || has_prefix(key, "severity_"@) {
        Seq::empty()
    } else if key == "scale"@ {
        Seq::empty()
    } else if key == "scale_pattern"@ {
        Seq::empty()
    } else if key == "mode_pattern"@ {
        Seq::empty()
    } else if key == "chord_vocab"@ {
        Seq::empty()
    } else if key == "chord_quality_vocab"@ {
        Seq::empty()
    } else if key == "set_class_vocab"@ {
        domain_reports(catalog, ws, TheoryDomain::SetClasses)
    } else if key == "rhythm_vocab"@ {
        Seq::empty()
    } else if key == "rhythm_concept"@ {
        domain_reports(catalog, ws, TheoryDomain::Rhythms)
    } else if key == "dynamic_vocab"@ {
        domain_reports(catalog, ws, TheoryDomain::Dynamics)
    } else if key == "articulation_vocab"@ {
        domain_reports(catalog, ws, TheoryDomain::Ornaments)
    } else if key == "ornament"@ {
        domain_reports(catalog, ws, TheoryDomain::Ornaments)
    } else if key == "non_chord_tone"@ {
        domain_reports(catalog, ws, TheoryDomain::NonChordTones)
    } else if key == "tuning_system"@ {
        domain_reports(catalog, ws, TheoryDomain::TuningSystems)
    } else if key == "world_tradition"@ {
        domain_reports(catalog, ws, TheoryDomain::WorldTraditions)
    } else if key == "historical_era"@ {
        domain_reports(catalog, ws, TheoryDomain::StyleEras)
    } else if key == "harmonic_function"@ {
        domain_reports(catalog, ws, TheoryDomain::HarmonicFunctions)
    } else if key == "max_melodic_leap"@ {
        Seq::empty()
    } else if key == "contrapuntal_motion"@ {
        domain_reports(catalog, ws, TheoryDomain::ContrapuntalMotions)
    } else if key == "cadence"@ {
        domain_reports(catalog, ws, TheoryDomain::Cadences)
    } else if key == "harmonic_progression"@ {
        domain_reports(catalog, ws, TheoryDomain::HarmonicFunctions)
    } else if key == "texture"@ {
        domain_reports(catalog, ws, TheoryDomain::Textures)
    } else if key == "form"@ {
        domain_reports(catalog, ws, TheoryDomain::Forms)
    } else if key == "meter"@ {
        Seq::empty()
    } else if key == "meter_catalog"@ {
        domain_reports(catalog, ws, TheoryDomain::Meters)
    } else if key == "tempo_range"@ {
        Seq::empty()
    } else if key == "instrument_range"@ {
        Seq::empty()
    } else {
        match crate::theory::domain_from_text(key) {
            Some(d) => domain_reports(catalog, ws, d),
            None => match custom_entries(custom, key) {
                Some(es) => custom_reports(key, ws, es),
                None => seq![("ML_STYLE_UNKNOWN_KEY"@, "unknown style key `"@ + key + "`"@)],
            },
        }
    }
}

/// What the settings of some entries report, in order.
pub open spec fn entries_reports(
    catalog: TheoryCatalog,
    custom: Seq<(Seq<char>, Seq<Seq<char>>)>,
    entries: Seq<StyleEntry>,
) -> Seq<(Seq<char>, Seq<char>)>
    decreases entries.len(),
{
    if entries.len() == 0 {
        Seq::empty()
    } else {
        entries_reports(catalog, custom, entries.drop_last()) + setting_reports(
            catalog,
            custom,
            entries.last().key@,
            entries.last().value@,
        )
    }
}

/// What one style declaration reports when it is applied to `m`: its settings, under the
/// custom domains that it and the styles before it declare.
pub open spec fn level_reports(catalog: TheoryCatalog, m: StyleModel, style: StyleDecl) -> Seq<(Seq<char>, Seq<char>)> {
    entries_reports(catalog, declare_all(m, style.entries@).custom_theory, style.entries@)
}

/// What the levels of a chain report, from its last (the top) to its first.
pub open spec fn chain_reports(catalog: TheoryCatalog, m: StyleModel, chain: Seq<StyleDecl>) -> Seq<(Seq<char>, Seq<char>)>
    decreases chain.len(),
{
    if chain.len() == 0 {
        Seq::empty()
    } else {
        level_reports(catalog, m, chain.last()) + chain_reports(
            catalog,
            level_model(catalog, m, chain.last()),
            chain.drop_last(),
        )
    }
}

proof fn lemma_set_all_keeps_custom(catalog: TheoryCatalog, m: StyleModel, entries: Seq<StyleEntry>)
    ensures
        set_all(catalog, m, entries).custom_theory == m.custom_theory,
    decreases entries.len(),
{
    if entries.len() > 0 {
        lemma_set_all_keeps_custom(catalog, m, entries.drop_last());
    }
}

/// The declarations of some entries, in order.
pub open spec fn declare_all(m: StyleModel, entries: Seq<StyleEntry>) -> StyleModel
    decreases entries.len(),
{
    if entries.len() == 0 {
        m
    } else {
        declare_entry(declare_all(m, entries.drop_last()), entries.last().key@, entries.last().value@)
    }
}

/// The settings of some entries, in order.
pub open spec fn set_all(catalog: TheoryCatalog, m: StyleModel, entries: Seq<StyleEntry>) -> StyleModel
    decreases entries.len(),
{
    if entries.len() == 0 {
        m
    } else {
        set_entry(
            catalog,
            set_all(catalog, m, entries.drop_last()),
            entries.last().key@,
            entries.last().value@,
        )
    }
}

/// The model after one style declaration: its declarations first, then its settings.
pub open spec fn level_model(catalog: TheoryCatalog, m: StyleModel, style: StyleDecl) -> StyleModel {
    set_all(catalog, declare_all(m, style.entries@), style.entries@)
}

proof fn lemma_custom_named(domains: Seq<(Seq<char>, Seq<Seq<char>>)>, name: Seq<char>, i: int)
    requires
        0 <= i < domains.len(),
        domains[i].0 == name,
    ensures
        custom_entries(domains, name) is Some,
    decreases domains.len(),
{
    if domains[0].0 != name {
        assert(domains.drop_first()[i - 1] == domains[i]);
        lemma_custom_named(domains.drop_first(), name, i - 1);
    }
}

proof fn lemma_custom_entries(domains: Seq<(Seq<char>, Seq<Seq<char>>)>, name: Seq<char>, i: int)
    requires
        0 <= i <= domains.len(),
        forall|k: int| 0 <= k < i ==> (#[trigger] domains[k]).0 != name,
    ensures
        i < domains.len() && domains[i].0 == name ==> custom_entries(domains, name) == Some(domains[i].1),
        i == domains.len() ==> custom_entries(domains, name) is None,
    decreases i,
{
    if i > 0 {
        assert(domains[0].0 != name);
        let rest = domains.drop_first();
        assert forall|k: int| 0 <= k < i - 1 implies (#[trigger] rest[k]).0 != name by {
            assert(rest[k] == domains[k + 1]);
        }
        lemma_custom_entries(rest, name, i - 1);
        if i < domains.len() {
            assert(rest[i - 1] == domains[i]);
        }
    }
}

/// Every diagnostic is an error with a style-building code.
pub open spec fn style_errors(ds: Seq<Diagnostic>) -> bool {
    forall|i: int|
        0 <= i < ds.len() ==> (#[trigger] ds[i]).severity == Severity::Error && style_code(
            ds[i].code@,
        )
}

/// An error about one entry of a style, located at the style.
fn style_entry_error(style: &StyleDecl, code: &str, message: &str, rule: &str) -> (r: Diagnostic)
    requires
        style_code(code@),
    ensures
        r.severity == Severity::Error,
        r.code@ == code@,
        r.message@ == message@,
{
    Diagnostic::error(code, message, style.line, style.column).with_span(style.span).with_rule(
        rule,
    ).with_style(style.name.as_str())
}

/// Checks each word of an entry against a catalog domain.
/// The words among `ids` that name no entry of `entries`, in order.
pub open spec fn unknown_entries(ids: Seq<Seq<char>>, entries: Seq<crate::theory::TheoryEntry>) -> Seq<
    Seq<char>,
>
    decreases ids.len(),
{
    if ids.len() == 0 {
        Seq::empty()
    } else {
        let rest = unknown_entries(ids.drop_last(), entries);
        if crate::theory::has_entry(entries, ids.last()) {
            rest
        } else {
            rest.push(ids.last())
        }
    }
}

/// The message for a word that names no entry of a theory domain.
pub open spec fn unknown_entry_message(id: Seq<char>, domain: TheoryDomain) -> Seq<char> {
    "unknown theory entry `"@ + id + "` in domain `"@ + crate::theory::domain_text(domain) + "`"@
}

/// The ids among `ws` that a custom domain's entries `es` do not list, in order.
pub open spec fn unknown_custom(ws: Seq<Seq<char>>, es: Seq<Seq<char>>) -> Seq<Seq<char>>
    decreases ws.len(),
{
    if ws.len() == 0 {
        Seq::empty()
    } else {
        let rest = unknown_custom(ws.drop_last(), es);
        if es.contains(ws.last()) {
            rest
        } else {
            rest.push(ws.last())
        }
    }
}

/// The reports, as codes and messages, of the words of a value that name no entry of a
/// catalog domain.
pub open spec fn domain_reports(catalog: TheoryCatalog, ws: Seq<Seq<char>>, domain: TheoryDomain) -> Seq<
    (Seq<char>, Seq<char>),
> {
    unknown_entries(ws, catalog.entries_spec(domain)).map_values(
        |id: Seq<char>| ("ML_STYLE_UNKNOWN_THEORY_ENTRY"@, unknown_entry_message(id, domain)),
    )
}

/// The reports of the words of a value that a custom domain does not list.
pub open spec fn custom_reports(key: Seq<char>, ws: Seq<Seq<char>>, es: Seq<Seq<char>>) -> Seq<
    (Seq<char>, Seq<char>),
> {
    unknown_custom(ws, es).map_values(
        |id: Seq<char>|
            (
                "ML_STYLE_UNKNOWN_THEORY_ENTRY"@,
                "unknown theory entry `"@ + id + "` in custom domain `"@ + key + "`"@,
            ),
    )
}

/// The diagnostics `ds` carry the codes and messages of `rs`, in order.
pub open spec fn reported_as(ds: Seq<Diagnostic>, rs: Seq<(Seq<char>, Seq<char>)>) -> bool {
    &&& ds.len() == rs.len()
    &&& forall|k: int| 0 <= k < ds.len() ==> (#[trigger] ds[k]).code@ == rs[k].0 && ds[k].message@ == rs[k].1
}

/// Reports of two runs of diagnostics, one after the other.
proof fn lemma_reported_append(
    ds: Seq<Diagnostic>,
    n: int,
    next: Seq<Diagnostic>,
    rs: Seq<(Seq<char>, Seq<char>)>,
    extra: Seq<(Seq<char>, Seq<char>)>,
)
    requires
        0 <= n <= ds.len() <= next.len(),
        next.take(ds.len() as int) == ds,
        reported_as(ds.skip(n), rs),
        reported_as(next.skip(ds.len() as int), extra),
    ensures
        reported_as(next.skip(n), rs + extra),
{
    let all = next.skip(n);
    assert forall|k: int| 0 <= k < all.len() implies (#[trigger] all[k]).code@ == (rs + extra)[k].0
        && all[k].message@ == (rs + extra)[k].1 by {
        if k < rs.len() {
            assert(all[k] == ds.skip(n)[k]) by {
                assert(next.take(ds.len() as int)[n + k] == next[n + k]);
            }
        } else {
            assert(all[k] == next.skip(ds.len() as int)[k - rs.len()]);
        }
    }
}

fn validate_vocab_entries(
    catalog: &TheoryCatalog,
    style: &StyleDecl,
    entry: &StyleEntry,
    domain: TheoryDomain,
    diagnostics: &mut Vec<Diagnostic>,
)
    requires
        style_errors(old(diagnostics)@),
    ensures
        style_errors(final(diagnostics)@),
        final(diagnostics)@.len() >= old(diagnostics)@.len(),
        final(diagnostics)@.take(old(diagnostics)@.len() as int) == old(diagnostics)@,
        ({
            let unknown = unknown_entries(words(entry.value@), catalog.entries_spec(domain));
            let n = old(diagnostics)@.len();
            &&& final(diagnostics)@.len() == n + unknown.len()
            &&& forall|k: int|
                0 <= k < unknown.len() ==> (#[trigger] final(diagnostics)@[n + k]).code@
                    == "ML_STYLE_UNKNOWN_THEORY_ENTRY"@ && final(diagnostics)@[n + k].message@
                    == unknown_entry_message(unknown[k], domain)
        }),
        reported_as(
            final(diagnostics)@.skip(old(diagnostics)@.len() as int),
            domain_reports(*catalog, words(entry.value@), domain),
        ),
{
    let ids = split_whitespace(entry.value.as_str());
    let ghost n = diagnostics@.len();
    let ghost entries = catalog.entries_spec(domain);
    proof {
        assert(views(ids@).take(0) =~= Seq::<Seq<char>>::empty());
    }
    let mut i: usize = 0;
    while i < ids.len()
        invariant
            style_errors(diagnostics@),
            diagnostics@.len() >= old(diagnostics)@.len(),
            diagnostics@.take(old(diagnostics)@.len() as int) == old(diagnostics)@,
            n == old(diagnostics)@.len(),
            i <= ids@.len(),
            entries == catalog.entries_spec(domain),
            views(ids@) == words(entry.value@),
            diagnostics@.len() == n + unknown_entries(views(ids@).take(i as int), entries).len(),
            forall|k: int|
                0 <= k < unknown_entries(views(ids@).take(i as int), entries).len() ==> (
                #[trigger] diagnostics@[n + k]).code@ == "ML_STYLE_UNKNOWN_THEORY_ENTRY"@
                    && diagnostics@[n + k].message@ == unknown_entry_message(
                    unknown_entries(views(ids@).take(i as int), entries)[k],
                    domain,
                ),
        decreases ids@.len() - i,
    {
        proof {
            assert(views(ids@).take(i + 1).drop_last() =~= views(ids@).take(i as int));
            assert(views(ids@).take(i + 1).last() == ids@[i as int]@);
        }
        let id = ids[i].as_str();
        if !theory_entry_exists(catalog, domain, id) {
            let message = concat3(
                concat3("unknown theory entry `", id, "` in domain `").as_str(),
                domain.name(),
                "`",
            );
            let d = style_entry_error(
                style,
                "ML_STYLE_UNKNOWN_THEORY_ENTRY",
                message.as_str(),
                entry.key.as_str(),
            );
            diagnostics.push(d);
            assert(diagnostics@.take(old(diagnostics)@.len() as int) =~= old(diagnostics)@);
        }
        i = i + 1;
    }
    proof {
        assert(views(ids@).take(i as int) =~= views(ids@));
        let ds = diagnostics@.skip(n as int);
        let rs = domain_reports(*catalog, words(entry.value@), domain);
        assert forall|k: int| 0 <= k < ds.len() implies (#[trigger] ds[k]).code@ == rs[k].0 && ds[k].message@
            == rs[k].1 by {
            assert(ds[k] == diagnostics@[n + k]);
        }
    }
}

/// Records the catalog entries that an entry names, and reports the unknown ones.
fn validate_builtin_theory_references(
    catalog: &TheoryCatalog,
    style: &StyleDecl,
    entry: &StyleEntry,
    domain: TheoryDomain,
    context: &mut StyleContext,
    diagnostics: &mut Vec<Diagnostic>,
)
    requires
        style_errors(old(diagnostics)@),
    ensures
        style_errors(final(diagnostics)@),
        final(diagnostics)@.len() >= old(diagnostics)@.len(),
        final(diagnostics)@.take(old(diagnostics)@.len() as int) == old(diagnostics)@,
        final(context).allowed_pitch_classes == old(context).allowed_pitch_classes,
        final(context).name == old(context).name,
        style_model(*final(context)) == (StyleModel {
            theory: style_model(*old(context)).theory + refs_in(
                crate::theory::domain_text(domain),
                words(entry.value@),
                |id: Seq<char>| crate::theory::has_entry(catalog.entries_spec(domain), id),
            ),
            ..style_model(*old(context))
        }),
        reported_as(
            final(diagnostics)@.skip(old(diagnostics)@.len() as int),
            domain_reports(*catalog, words(entry.value@), domain),
        ),
{
    let ids = split_whitespace(entry.value.as_str());
    let ghost ws = words(entry.value@);
    let ghost n = diagnostics@.len() as int;
    let ghost known = |id: Seq<char>| crate::theory::has_entry(catalog.entries_spec(domain), id);
    assert(diagnostics@.skip(n) =~= Seq::<Diagnostic>::empty());
    assert(domain_reports(*catalog, ws.take(0), domain) =~= Seq::empty());
    let ghost label = crate::theory::domain_text(domain);
    let mut i: usize = 0;
    while i < ids.len()
        invariant
            style_errors(diagnostics@),
            diagnostics@.len() >= old(diagnostics)@.len(),
            diagnostics@.take(old(diagnostics)@.len() as int) == old(diagnostics)@,
            context.allowed_pitch_classes == old(context).allowed_pitch_classes,
            context.name == old(context).name,
            i <= ids@.len(),
            views(ids@) == ws,
            known == |id: Seq<char>| crate::theory::has_entry(catalog.entries_spec(domain), id),
            label == crate::theory::domain_text(domain),
            style_model(*context) == (StyleModel {
                theory: style_model(*old(context)).theory + refs_in(label, ws.take(i as int), known),
                ..style_model(*old(context))
            }),
            n == old(diagnostics)@.len(),
            reported_as(diagnostics@.skip(n), domain_reports(*catalog, ws.take(i as int), domain)),
        decreases ids@.len() - i,
    {
        let id = ids[i].as_str();
        assert(ws.take(i + 1).drop_last() =~= ws.take(i as int));
        assert(ws.take(i + 1).last() == id@);
        let ghost before = *context;
        let ghost dbefore = diagnostics@;
        if theory_entry_exists(catalog, domain, id) {
            context.theory.push(TheoryReference { domain: owned(domain.name()), entry_id: owned(id) });
            assert(domain_reports(*catalog, ws.take(i + 1), domain) =~= domain_reports(
                *catalog,
                ws.take(i as int),
                domain,
            ));
            assert(style_model(*context).theory =~= style_model(before).theory.push((label, id@)));
            assert(style_model(*context) =~~= (StyleModel {
                theory: style_model(*old(context)).theory + refs_in(label, ws.take(i + 1), known),
                ..style_model(*old(context))
            }));
        } else {
            let message = concat3(
                concat3("unknown theory entry `", id, "` in domain `").as_str(),
                domain.name(),
                "`",
            );
            let d = style_entry_error(
                style,
                "ML_STYLE_UNKNOWN_THEORY_ENTRY",
                message.as_str(),
                entry.key.as_str(),
            );
            diagnostics.push(d);
            assert(diagnostics@.take(old(diagnostics)@.len() as int) =~= old(diagnostics)@);
            assert(refs_in(label, ws.take(i + 1), known) =~= refs_in(label, ws.take(i as int), known));
            proof {
                let rs0 = domain_reports(*catalog, ws.take(i as int), domain);
                let rs1 = domain_reports(*catalog, ws.take(i + 1), domain);
                assert(rs1 =~= rs0.push(("ML_STYLE_UNKNOWN_THEORY_ENTRY"@, unknown_entry_message(id@, domain))));
                assert(diagnostics@.skip(n) =~= dbefore.skip(n).push(diagnostics@.last()));
            }
        }
        i = i + 1;
    }
    assert(ws.take(i as int) =~= ws);
}

/// The position of the custom theory domain with this name.
fn custom_domain_position(context: &StyleContext, name: &str) -> (r: Option<usize>)
    ensures
        r matches Some(i) ==> i < context.custom_theory@.len() && context.custom_theory@[i as int].name@
            == name@ && forall|k: int| 0 <= k < i ==> (#[trigger] context.custom_theory@[k]).name@ != name@,
        r is None ==> forall|i: int|
            0 <= i < context.custom_theory@.len() ==> (#[trigger] context.custom_theory@[i]).name@
                != name@,
{
    let mut i: usize = 0;
    while i < context.custom_theory.len()
        invariant
            i <= context.custom_theory@.len(),
            forall|k: int| 0 <= k < i ==> (#[trigger] context.custom_theory@[k]).name@ != name@,
        decreases context.custom_theory@.len() - i,
    {
        if str_eq(context.custom_theory[i].name.as_str(), name) {
            return Some(i);
        }
        i = i + 1;
    }
    None
}

/// Whether the style declares a custom theory domain with this name.
pub fn custom_theory_domain_exists(context: &StyleContext, domain_name: &str) -> (r: bool)
    ensures
        r == exists|i: int|
            0 <= i < context.custom_theory@.len() && (#[trigger] context.custom_theory@[i]).name@
                == domain_name@,
{
    match custom_domain_position(context, domain_name) {
        Some(i) => {
            assert(context.custom_theory@[i as int].name@ == domain_name@);
            true
        },
        None => false,
    }
}

fn contains_text(list: &Vec<String>, item: &str) -> (r: bool)
    ensures
        r == exists|i: int| 0 <= i < list@.len() && (#[trigger] list@[i])@ == item@,
{
    let mut i: usize = 0;
    while i < list.len()
        invariant
            i <= list@.len(),
            forall|k: int| 0 <= k < i ==> (#[trigger] list@[k])@ != item@,
        decreases list@.len() - i,
    {
        if str_eq(list[i].as_str(), item) {
            return true;
        }
        i = i + 1;
    }
    false
}

/// Records the entries of a custom domain that an entry names, and reports the others.
fn validate_custom_theory_references(
    style: &StyleDecl,
    entry: &StyleEntry,
    context: &mut StyleContext,
    diagnostics: &mut Vec<Diagnostic>,
)
    requires
        style_errors(old(diagnostics)@),
    ensures
        style_errors(final(diagnostics)@),
        final(diagnostics)@.len() >= old(diagnostics)@.len(),
        final(diagnostics)@.take(old(diagnostics)@.len() as int) == old(diagnostics)@,
        final(context).allowed_pitch_classes == old(context).allowed_pitch_classes,
        final(context).name == old(context).name,
        style_model(*final(context)) == (StyleModel {
            theory: style_model(*old(context)).theory + match custom_entries(
                style_model(*old(context)).custom_theory,
                entry.key@,
            ) {
                Some(es) => refs_in(entry.key@, words(entry.value@), |id: Seq<char>| es.contains(id)),
                None => Seq::empty(),
            },
            ..style_model(*old(context))
        }),
        reported_as(
            final(diagnostics)@.skip(old(diagnostics)@.len() as int),
            match custom_entries(style_model(*old(context)).custom_theory, entry.key@) {
                Some(es) => custom_reports(entry.key@, words(entry.value@), es),
                None => Seq::empty(),
            },
        ),
{
    let ghost m0 = style_model(*old(context));
    let ghost n = diagnostics@.len() as int;
    assert(diagnostics@.skip(n) =~= Seq::<Diagnostic>::empty());
    let position = match custom_domain_position(context, entry.key.as_str()) {
        Some(p) => p,
        None => {
            proof {
                assert forall|k: int| 0 <= k < m0.custom_theory.len() implies (#[trigger] m0.custom_theory[k]).0 != entry.key@ by {
                    assert(m0.custom_theory[k].0 == context.custom_theory@[k].name@);
                }
                lemma_custom_entries(m0.custom_theory, entry.key@, m0.custom_theory.len() as int);
                assert(style_model(*context).theory =~= m0.theory + Seq::<(Seq<char>, Seq<char>)>::empty());
                assert(style_model(*context) =~~= (StyleModel {
                    theory: m0.theory + Seq::<(Seq<char>, Seq<char>)>::empty(),
                    ..m0
                }));
            }
            return;
        },
    };
    proof {
        assert forall|k: int| 0 <= k < position implies (#[trigger] m0.custom_theory[k]).0 != entry.key@ by {
            assert(m0.custom_theory[k].0 == context.custom_theory@[k].name@);
        }
        assert(m0.custom_theory[position as int].0 == entry.key@);
        lemma_custom_entries(m0.custom_theory, entry.key@, position as int);
    }
    let known = context.custom_theory[position].entries.clone();
    let ghost es = m0.custom_theory[position as int].1;
    assert(views(known@) =~= es) by {
        assert forall|k: int| 0 <= k < known@.len() implies known@[k] == context.custom_theory@[position as int].entries@[k] by {}
    }
    let ids = split_whitespace(entry.value.as_str());
    let ghost ws = words(entry.value@);
    let ghost in_domain = |id: Seq<char>| es.contains(id);
    assert(custom_reports(entry.key@, ws.take(0), es) =~= Seq::empty());
    let mut i: usize = 0;
    while i < ids.len()
        invariant
            style_errors(diagnostics@),
            diagnostics@.len() >= old(diagnostics)@.len(),
            diagnostics@.take(old(diagnostics)@.len() as int) == old(diagnostics)@,
            context.allowed_pitch_classes == old(context).allowed_pitch_classes,
            context.name == old(context).name,
            i <= ids@.len(),
            views(ids@) == ws,
            views(known@) == es,
            in_domain == |id: Seq<char>| es.contains(id),
            m0 == style_model(*old(context)),
            custom_entries(m0.custom_theory, entry.key@) == Some(es),
            style_model(*context) == (StyleModel {
                theory: m0.theory + refs_in(entry.key@, ws.take(i as int), in_domain),
                ..m0
            }),
            n == old(diagnostics)@.len(),
            reported_as(diagnostics@.skip(n), custom_reports(entry.key@, ws.take(i as int), es)),
        decreases ids@.len() - i,
    {
        let id = ids[i].as_str();
        assert(ws.take(i + 1).drop_last() =~= ws.take(i as int));
        assert(ws.take(i + 1).last() == id@);
        let ghost before = *context;
        let ghost dbefore = diagnostics@;
        let listed = contains_text(&known, id);
        assert(listed == es.contains(id@)) by {
            if listed {
                let k = choose|k: int| 0 <= k < known@.len() && (#[trigger] known@[k])@ == id@;
                assert(es[k] == id@);
            }
            if es.contains(id@) {
                let k = choose|k: int| 0 <= k < es.len() && es[k] == id@;
                assert(known@[k]@ == id@);
            }
        }
        if listed {
            context.theory.push(TheoryReference { domain: entry.key.clone(), entry_id: owned(id) });
            assert(custom_reports(entry.key@, ws.take(i + 1), es) =~= custom_reports(
                entry.key@,
                ws.take(i as int),
                es,
            ));
            assert(style_model(*context).theory =~= style_model(before).theory.push((entry.key@, id@)));
            assert(style_model(*context) =~~= (StyleModel {
                theory: m0.theory + refs_in(entry.key@, ws.take(i + 1), in_domain),
                ..m0
            }));
        } else {
            let message = concat3(
                concat3("unknown theory entry `", id, "` in custom domain `").as_str(),
                entry.key.as_str(),
                "`",
            );
            let d = style_entry_error(
                style,
                "ML_STYLE_UNKNOWN_THEORY_ENTRY",
                message.as_str(),
                entry.key.as_str(),
            );
            diagnostics.push(d);
            assert(diagnostics@.take(old(diagnostics)@.len() as int) =~= old(diagnostics)@);
            assert(refs_in(entry.key@, ws.take(i + 1), in_domain) =~= refs_in(
                entry.key@,
                ws.take(i as int),
                in_domain,
            ));
            proof {
                let rs0 = custom_reports(entry.key@, ws.take(i as int), es);
                let rs1 = custom_reports(entry.key@, ws.take(i + 1), es);
                assert(rs1 =~= rs0.push(
                    (
                        "ML_STYLE_UNKNOWN_THEORY_ENTRY"@,
                        "unknown theory entry `"@ + id@ + "` in custom domain `"@ + entry.key@ + "`"@,
                    ),
                ));
                assert(diagnostics@.skip(n) =~= dbefore.skip(n).push(diagnostics@.last()));
            }
        }
        i = i + 1;
    }
    assert(ws.take(i as int) =~= ws);
}

/// The distinct pitch classes of a list, in semitone order.
#[verifier::spinoff_prover]
fn class_set(classes: &Vec<PitchClass>) -> (r: Vec<PitchClass>)
    ensures
        forall|c: PitchClass| r@.contains(c) <==> classes@.contains(c),
        crate::vocab::classes_ascending(r@),
{
    let mut out: Vec<PitchClass> = Vec::new();
    let mut s: i16 = 0;
    while s < 12
        invariant
            0 <= s <= 12,
            forall|c: PitchClass|
                out@.contains(c) <==> (crate::music::semitone_of(c) < s && classes@.contains(c)),
            crate::vocab::classes_ascending(out@),
            forall|m: int| 0 <= m < out@.len() ==> crate::music::semitone_of(#[trigger] out@[m]) < s,
        decreases 12 - s,
    {
        let c = PitchClass::from_semitone(s);
        assert(crate::music::semitone_of(c) == s);
        let mut found = false;
        let mut i: usize = 0;
        while i < classes.len()
            invariant
                i <= classes@.len(),
                found <==> exists|k: int| 0 <= k < i && classes@[k] == c,
            decreases classes@.len() - i,
        {
            if classes[i] == c {
                found = true;
            }
            i = i + 1;
        }
        let ghost prev = out@;
        if found {
            out.push(c);
        }
        assert forall|d: PitchClass|
            out@.contains(d) <==> (crate::music::semitone_of(d) < s + 1 && classes@.contains(d)) by {
            if out@.contains(d) {
                let k = choose|k: int| 0 <= k < out@.len() && out@[k] == d;
                if k < prev.len() {
                    assert(prev[k] == d);
                }
            }
            if crate::music::semitone_of(d) < s && classes@.contains(d) {
                assert(prev.contains(d));
                let k = choose|k: int| 0 <= k < prev.len() && prev[k] == d;
                assert(out@[k] == d);
            }
            if crate::music::semitone_of(d) == s && classes@.contains(d) {
                assert(d == c);
                let k = choose|k: int| 0 <= k < classes@.len() && classes@[k] == d;
                assert(found);
                assert(out@[prev.len() as int] == c);
            }
        }
        s = s + 1;
    }
    out
}

/// The pitch classes that the words of a value spell.
fn scale_classes(value: &str) -> (r: Vec<PitchClass>)
    ensures
        r@.len() > 0 <==> crate::vocab::classes_in(words(value@)).len() > 0,
        r@.to_set() == crate::vocab::classes_in(words(value@)).to_set(),
        crate::vocab::classes_ascending(r@),
{
    match parse_chord_classes(value) {
        Some(classes) => {
            let r = class_set(&classes);
            assert(classes@.contains(classes@[0]));
            assert(r@.contains(classes@[0]));
            assert(r@.to_set() =~= classes@.to_set());
            r
        },
        None => {
            let r: Vec<PitchClass> = Vec::new();
            assert(r@.to_set() =~= crate::vocab::classes_in(words(value@)).to_set());
            r
        },
    }
}

/// The chords of a `chord_vocab` value, separated by `;`.
fn chord_vocab_of(value: &str) -> (r: Vec<Vec<PitchClass>>)
    ensures
        r@.map_values(|v: Vec<PitchClass>| v@) == chords_in(split_char_spec(value@, ';')),
{
    let parts = split_char(value, ';');
    let ghost ps = split_char_spec(value@, ';');
    let mut out: Vec<Vec<PitchClass>> = Vec::new();
    let mut i: usize = 0;
    while i < parts.len()
        invariant
            i <= parts@.len(),
            views(parts@) == ps,
            out@.map_values(|v: Vec<PitchClass>| v@) == chords_in(ps.take(i as int)),
        decreases parts@.len() - i,
    {
        assert(ps.take(i + 1).drop_last() =~= ps.take(i as int));
        assert(ps.take(i + 1).last() == parts@[i as int]@);
        let ghost before = out@;
        match parse_chord_classes(parts[i].as_str()) {
            Some(classes) => {
                out.push(classes);
                assert(out@.map_values(|v: Vec<PitchClass>| v@) =~= before.map_values(
                    |v: Vec<PitchClass>| v@,
                ).push(classes@));
            },
            None => {},
        }
        i = i + 1;
    }
    assert(ps.take(i as int) =~= ps);
    out
}

/// The durations that the words of a value spell.
fn rhythm_vocab_of(value: &str) -> (r: Vec<Duration>)
    ensures
        r@.map_values(|d: Duration| (d.numerator_spec(), d.denominator_spec())) == durations_in(
            words(value@),
        ),
{
    let parts = split_whitespace(value);
    let ghost ws = words(value@);
    let mut out: Vec<Duration> = Vec::new();
    let mut i: usize = 0;
    while i < parts.len()
        invariant
            i <= parts@.len(),
            views(parts@) == ws,
            out@.map_values(|d: Duration| (d.numerator_spec(), d.denominator_spec())) == durations_in(
                ws.take(i as int),
            ),
        decreases parts@.len() - i,
    {
        assert(ws.take(i + 1).drop_last() =~= ws.take(i as int));
        assert(ws.take(i + 1).last() == parts@[i as int]@);
        let ghost before = out@;
        match Duration::parse(parts[i].as_str()) {
            Ok(d) => {
                out.push(d);
                assert(out@.map_values(|d: Duration| (d.numerator_spec(), d.denominator_spec()))
                    =~= before.map_values(|d: Duration| (d.numerator_spec(), d.denominator_spec())).push(
                    (d.numerator_spec(), d.denominator_spec()),
                ));
            },
            Err(_) => {},
        }
        i = i + 1;
    }
    assert(ws.take(i as int) =~= ws);
    out
}

/// A `min..max` tempo range, both ends trimmed.
fn tempo_range_of(value: &str) -> (r: Option<(u16, u16)>)
    ensures
        r == tempo_range_from(value@),
{
    let (a, b) = match split_once_dotdot(value) {
        Some(parts) => parts,
        None => return None,
    };
    let min = match parse_u16(trim(a.as_str()).as_str()) {
        Some(v) => v,
        None => return None,
    };
    let max = match parse_u16(trim(b.as_str()).as_str()) {
        Some(v) => v,
        None => return None,
    };
    Some((min, max))
}

/// Applies the setting of one entry to a context, reporting unknown keys and unknown
/// catalog references.
#[verifier::rlimit(80)]
fn apply_setting(
    catalog: &TheoryCatalog,
    style: &StyleDecl,
    entry: &StyleEntry,
    context: &mut StyleContext,
    diagnostics: &mut Vec<Diagnostic>,
)
    requires
        style_errors(old(diagnostics)@),
        crate::style::classes_listed_once(*old(context)),
    ensures
        style_errors(final(diagnostics)@),
        final(diagnostics)@.len() >= old(diagnostics)@.len(),
        final(diagnostics)@.take(old(diagnostics)@.len() as int) == old(diagnostics)@,
        crate::style::classes_listed_once(*final(context)),
        final(context).name == old(context).name,
        style_model(*final(context)) == set_entry(*catalog, style_model(*old(context)), entry.key@, entry.value@),
        reported_as(
            final(diagnostics)@.skip(old(diagnostics)@.len() as int),
            setting_reports(*catalog, style_model(*old(context)).custom_theory, entry.key@, entry.value@),
        ),
{
    let ghost n = diagnostics@.len() as int;
    assert(diagnostics@.skip(n) =~= Seq::<Diagnostic>::empty());
    let key = entry.key.as_str();
    let value = entry.value.as_str();
    let ghost target = set_entry(*catalog, style_model(*old(context)), entry.key@, entry.value@);
    if starts_with(key, "theory_") || starts_with(key, "rule_") || starts_with(key, "severity_") {
        assert(style_model(*context) =~~= target);
    } else if str_eq(key, "scale") {
        let classes = scale_classes(value);
        if classes.len() > 0 {
            context.allowed_pitch_classes = Some(classes);
        }
        assert(style_model(*context) =~~= target);
    } else if str_eq(key, "scale_pattern") {
        match parse_scale_pattern(catalog, value) {
            Some(classes) => context.allowed_pitch_classes = Some(classes),
            None => {},
        }
        assert(style_model(*context) =~~= target);
    } else if str_eq(key, "mode_pattern") {
        match parse_mode_pattern(catalog, value) {
            Some(classes) => context.allowed_pitch_classes = Some(classes),
            None => {},
        }
        assert(style_model(*context) =~~= target);
    } else if str_eq(key, "chord_vocab") {
        context.chord_vocab = chord_vocab_of(value);
        assert(style_model(*context) =~~= target);
    } else if str_eq(key, "chord_quality_vocab") {
        context.chord_quality_vocab = split_whitespace(value);
        assert(style_model(*context) =~~= target);
    } else if str_eq(key, "set_class_vocab") {
        context.set_class_vocab = split_whitespace(value);
        validate_vocab_entries(catalog, style, entry, TheoryDomain::SetClasses, diagnostics);
        assert(style_model(*context) =~~= target);
    } else if str_eq(key, "rhythm_vocab") {
        context.rhythm_vocab = rhythm_vocab_of(value);
        assert(style_model(*context) =~~= target);
    } else if str_eq(key, "rhythm_concept") {
        context.rhythm_concepts = split_whitespace(value);
        validate_vocab_entries(catalog, style, entry, TheoryDomain::Rhythms, diagnostics);
        assert(style_model(*context) =~~= target);
    } else if str_eq(key, "dynamic_vocab") {
        context.dynamic_vocab = split_whitespace(value);
        validate_vocab_entries(catalog, style, entry, TheoryDomain::Dynamics, diagnostics);
        assert(style_model(*context) =~~= target);
    } else if str_eq(key, "articulation_vocab") {
        context.articulation_vocab = split_whitespace(value);
        validate_vocab_entries(catalog, style, entry, TheoryDomain::Ornaments, diagnostics);
        assert(style_model(*context) =~~= target);
    } else if str_eq(key, "ornament") {
        context.ornaments = split_whitespace(value);
        validate_vocab_entries(catalog, style, entry, TheoryDomain::Ornaments, diagnostics);
        assert(style_model(*context) =~~= target);
    } else if str_eq(key, "non_chord_tone") {
        context.non_chord_tones = split_whitespace(value);
        validate_vocab_entries(catalog, style, entry, TheoryDomain::NonChordTones, diagnostics);
        assert(style_model(*context) =~~= target);
    } else if str_eq(key, "tuning_system") {
        context.tuning_systems = split_whitespace(value);
        validate_vocab_entries(catalog, style, entry, TheoryDomain::TuningSystems, diagnostics);
        assert(style_model(*context) =~~= target);
    } else if str_eq(key, "world_tradition") {
        context.world_traditions = split_whitespace(value);
        validate_vocab_entries(catalog, style, entry, TheoryDomain::WorldTraditions, diagnostics);
        assert(style_model(*context) =~~= target);
    } else if str_eq(key, "historical_era") {
        context.historical_eras = split_whitespace(value);
        validate_vocab_entries(catalog, style, entry, TheoryDomain::StyleEras, diagnostics);
        assert(style_model(*context) =~~= target);
    } else if str_eq(key, "harmonic_function") {
        context.harmonic_functions = split_whitespace(value);
        validate_vocab_entries(
            catalog,
            style,
            entry,
            TheoryDomain::HarmonicFunctions,
            diagnostics,
        );
        assert(style_model(*context) =~~= target);
    } else if str_eq(key, "max_melodic_leap") {
        context.max_melodic_leap = match Interval::parse(trim(value).as_str()) {
            Ok(interval) => Some(interval),
            Err(_) => None,
        };
        assert(style_model(*context) =~~= target);
    } else if str_eq(key, "contrapuntal_motion") {
        context.contrapuntal_motion = split_whitespace(value);
        validate_vocab_entries(
            catalog,
            style,
            entry,
            TheoryDomain::ContrapuntalMotions,
            diagnostics,
        );
        assert(style_model(*context) =~~= target);
    } else if str_eq(key, "cadence") {
        context.cadences = split_whitespace(value);
        validate_vocab_entries(catalog, style, entry, TheoryDomain::Cadences, diagnostics);
        assert(style_model(*context) =~~= target);
    } else if str_eq(key, "harmonic_progression") {
        context.harmonic_progression = split_whitespace(value);
        validate_vocab_entries(
            catalog,
            style,
            entry,
            TheoryDomain::HarmonicFunctions,
            diagnostics,
        );
        assert(style_model(*context) =~~= target);
    } else if str_eq(key, "texture") {
        context.texture = Some(trim(value));
        validate_vocab_entries(catalog, style, entry, TheoryDomain::Textures, diagnostics);
        assert(style_model(*context) =~~= target);
    } else if str_eq(key, "form") {
        context.form = Some(trim(value));
        validate_vocab_entries(catalog, style, entry, TheoryDomain::Forms, diagnostics);
        assert(style_model(*context) =~~= target);
    } else if str_eq(key, "meter") {
        match parse_meter(value) {
            Some((numerator, denominator)) => {
                context.meter = Some(Meter { numerator, denominator });
            },
            None => {},
        }
        assert(style_model(*context) =~~= target);
    } else if str_eq(key, "meter_catalog") {
        context.meter_catalog = split_whitespace(value);
        validate_vocab_entries(catalog, style, entry, TheoryDomain::Meters, diagnostics);
        assert(style_model(*context) =~~= target);
    } else if str_eq(key, "tempo_range") {
        match tempo_range_of(value) {
            Some(range) => context.tempo_range = Some(range),
            None => {},
        }
        assert(style_model(*context) =~~= target);
    } else if str_eq(key, "instrument_range") {
        match parse_instrument_range(value) {
            Some(range) => context.instrument_ranges.push(range),
            None => {},
        }
        assert(style_model(*context) =~~= target);
    } else {
        match TheoryDomain::parse(key) {
            Ok(domain) => validate_builtin_theory_references(
                catalog,
                style,
                entry,
                domain,
                context,
                diagnostics,
            ),
            Err(_) => {
                if custom_theory_domain_exists(context, key) {
                    assert(crate::theory::domain_from_text(entry.key@) is None);
                    let ghost custom = style_model(*context).custom_theory;
                    assert(custom == style_model(*old(context)).custom_theory);
                    proof {
                        let i = choose|i: int|
                            0 <= i < context.custom_theory@.len() && (#[trigger] context.custom_theory@[i]).name@
                                == key@;
                        assert(custom[i].0 == context.custom_theory@[i].name@);
                        lemma_custom_named(custom, entry.key@, i);
                    }
                    validate_custom_theory_references(style, entry, context, diagnostics);
                } else {
                    proof {
                        let ct = style_model(*context).custom_theory;
                        assert forall|k: int| 0 <= k < ct.len() implies (#[trigger] ct[k]).0 != entry.key@ by {
                            assert(ct[k].0 == context.custom_theory@[k].name@);
                        }
                        lemma_custom_entries(ct, entry.key@, ct.len() as int);
                    }
                    let message = concat3("unknown style key `", key, "`");
                    let d = Diagnostic::error(
                        "ML_STYLE_UNKNOWN_KEY",
                        message.as_str(),
                        style.line,
                        style.column,
                    ).with_span(style.span).with_style(style.name.as_str());
                    let ghost dbefore = diagnostics@;
                    diagnostics.push(d);
                    assert(diagnostics@.skip(n) =~= dbefore.skip(n).push(d));
                }
            },
        }
        assert(style_model(*context) =~~= target);
    }
}

/// Applies the entries of one style declaration to a context: first the custom
/// theory domains, custom rules and severities, then every other key.
#[verifier::rlimit(60)]
fn apply_entries(
    catalog: &TheoryCatalog,
    style: &StyleDecl,
    context: &mut StyleContext,
    diagnostics: &mut Vec<Diagnostic>,
)
    requires
        style_errors(old(diagnostics)@),
        crate::style::classes_listed_once(*old(context)),
    ensures
        style_errors(final(diagnostics)@),
        final(diagnostics)@.len() >= old(diagnostics)@.len(),
        final(diagnostics)@.take(old(diagnostics)@.len() as int) == old(diagnostics)@,
        crate::style::classes_listed_once(*final(context)),
        final(context).name == old(context).name,
        style_model(*final(context)) == level_model(*catalog, style_model(*old(context)), *style),
        reported_as(
            final(diagnostics)@.skip(old(diagnostics)@.len() as int),
            level_reports(*catalog, style_model(*old(context)), *style),
        ),
{
    let ghost m0 = style_model(*old(context));
    let ghost es = style.entries@;
    let mut i: usize = 0;
    while i < style.entries.len()
        invariant
            context.allowed_pitch_classes == old(context).allowed_pitch_classes,
            context.name == old(context).name,
            diagnostics@ == old(diagnostics)@,
            i <= es.len(),
            es == style.entries@,
            m0 == style_model(*old(context)),
            style_model(*context) == declare_all(m0, es.take(i as int)),
        decreases style.entries@.len() - i,
    {
        let entry = &style.entries[i];
        let key = entry.key.as_str();
        assert(es.take(i + 1).drop_last() =~= es.take(i as int));
        assert(es.take(i + 1).last() == *entry);
        let ghost mb = style_model(*context);
        let ghost target = declare_entry(mb, entry.key@, entry.value@);
        proof {
            reveal_strlit("theory_");
            reveal_strlit("rule_");
            reveal_strlit("severity_");
        }
        match strip_prefix(key, "theory_") {
            Some(domain_name) => {
                context.custom_theory.push(
                    CustomTheoryDomain {
                        name: domain_name,
                        entries: split_whitespace(entry.value.as_str()),
                    },
                );
                assert(style_model(*context) =~~= target);
            },
            None => match strip_prefix(key, "rule_") {
                Some(rule_id) => {
                    context.custom_rules.push(
                        CustomStyleRule { id: rule_id, description: entry.value.clone() },
                    );
                    assert(style_model(*context) =~~= target);
                },
                None => match strip_prefix(key, "severity_") {
                    Some(rule_id) => {
                        match parse_rule_severity(entry.value.as_str()) {
                            Some(severity) => {
                                context.set_rule_severity(rule_id.as_str(), severity);
                                assert(style_model(*context).rule_severity =~= mb.rule_severity.push(
                                    (rule_id@, severity),
                                ));
                                assert(style_model(*context) =~~= target);
                            },
                            None => {},
                        }
                    },
                    None => {},
                },
            },
        }
        i = i + 1;
    }
    assert(es.take(i as int) =~= es);
    let ghost md = declare_all(m0, es);
    let ghost n0 = diagnostics@.len() as int;
    assert(diagnostics@.skip(n0) =~= Seq::<Diagnostic>::empty());
    assert(entries_reports(*catalog, md.custom_theory, es.take(0)) =~= Seq::empty());
    let mut i: usize = 0;
    while i < style.entries.len()
        invariant
            style_errors(diagnostics@),
            diagnostics@.len() >= old(diagnostics)@.len(),
            diagnostics@.take(old(diagnostics)@.len() as int) == old(diagnostics)@,
            crate::style::classes_listed_once(*context),
            context.name == old(context).name,
            i <= es.len(),
            es == style.entries@,
            m0 == style_model(*old(context)),
            md == declare_all(m0, es),
            style_model(*context) == set_all(*catalog, md, es.take(i as int)),
            n0 == old(diagnostics)@.len(),
            reported_as(diagnostics@.skip(n0), entries_reports(*catalog, md.custom_theory, es.take(i as int))),
        decreases style.entries@.len() - i,
    {
        let ghost before = diagnostics@;
        let entry = &style.entries[i];
        assert(es.take(i + 1).drop_last() =~= es.take(i as int));
        assert(es.take(i + 1).last() == *entry);
        let ghost mb = style_model(*context);
        let ghost target = set_entry(*catalog, mb, entry.key@, entry.value@);
        proof {
            lemma_set_all_keeps_custom(*catalog, md, es.take(i as int));
        }
        apply_setting(catalog, style, entry, context, diagnostics);
        proof {
            lemma_reported_append(
                before,
                n0,
                diagnostics@,
                entries_reports(*catalog, md.custom_theory, es.take(i as int)),
                setting_reports(*catalog, md.custom_theory, entry.key@, entry.value@),
            );
        }
        assert(diagnostics@.take(before.len() as int) == before);
        assert(diagnostics@.take(old(diagnostics)@.len() as int) =~= old(diagnostics)@) by {
            assert(before.take(old(diagnostics)@.len() as int) == old(diagnostics)@);
        }
        assert(style_model(*context) =~~= target);
        i = i + 1;
    }
    assert(es.take(i as int) =~= es);
}

/// The first declaration with a name.
pub open spec fn first_named(styles: Seq<StyleDecl>, name: Seq<char>) -> Option<StyleDecl>
    decreases styles.len(),
{
    if styles.len() == 0 {
        None
    } else if styles[0].name@ == name {
        Some(styles[0])
    } else {
        first_named(styles.drop_first(), name)
    }
}

/// The walk up the parents from a declaration, after the declarations already
/// `seen`: it stops at a declaration whose name it has seen (a cycle), one without a
/// parent, or one whose parent no declaration names. The result is the chain of
/// declarations walked, child first, and the declaration the walk stopped at.
pub open spec fn chain_from(
    styles: Seq<StyleDecl>,
    cur: StyleDecl,
    seen: Seq<StyleDecl>,
    fuel: nat,
) -> (Seq<StyleDecl>, StyleDecl)
    decreases fuel,
{
    if fuel == 0 {
        (seen, cur)
    } else if exists|i: int| 0 <= i < seen.len() && (#[trigger] seen[i]).name@ == cur.name@ {
        (seen, cur)
    } else {
        let next = seen.push(cur);
        match cur.parent {
            Some(p) => match first_named(styles, p@) {
                Some(parent) => chain_from(styles, parent, next, (fuel - 1) as nat),
                None => (next, cur),
            },
            None => (next, cur),
        }
    }
}

/// The inheritance chain of a declaration among a program's styles, and the
/// declaration at its top.
pub open spec fn style_chain(styles: Seq<StyleDecl>, style: StyleDecl) -> (Seq<StyleDecl>, StyleDecl) {
    chain_from(styles, style, Seq::empty(), styles.len() + 2)
}

/// The model after the levels of a chain, from its last (the top) to its first.
pub open spec fn chain_model(catalog: TheoryCatalog, m: StyleModel, chain: Seq<StyleDecl>) -> StyleModel
    decreases chain.len(),
{
    if chain.len() == 0 {
        m
    } else {
        chain_model(catalog, level_model(catalog, m, chain.last()), chain.drop_last())
    }
}

proof fn lemma_chain_model_front(catalog: TheoryCatalog, m: StyleModel, x: StyleDecl, t: Seq<StyleDecl>)
    ensures
        chain_model(catalog, m, seq![x] + t) == level_model(catalog, chain_model(catalog, m, t), x),
    decreases t.len(),
{
    let s = seq![x] + t;
    if t.len() == 0 {
        assert(s.drop_last() =~= Seq::<StyleDecl>::empty());
        assert(s.last() == x);
        assert(chain_model(catalog, m, s) == chain_model(catalog, level_model(catalog, m, x), s.drop_last()));
    } else {
        assert(s.last() == t.last());
        assert(s.drop_last() =~= seq![x] + t.drop_last());
        let m1 = level_model(catalog, m, t.last());
        lemma_chain_model_front(catalog, m1, x, t.drop_last());
        assert(chain_model(catalog, m, s) == chain_model(catalog, m1, s.drop_last()));
        assert(chain_model(catalog, m, t) == chain_model(catalog, m1, t.drop_last()));
    }
}

proof fn lemma_chain_reports_front(catalog: TheoryCatalog, m: StyleModel, x: StyleDecl, t: Seq<StyleDecl>)
    ensures
        chain_reports(catalog, m, seq![x] + t) == chain_reports(catalog, m, t) + level_reports(
            catalog,
            chain_model(catalog, m, t),
            x,
        ),
    decreases t.len(),
{
    let s = seq![x] + t;
    if t.len() == 0 {
        assert(s.drop_last() =~= Seq::<StyleDecl>::empty());
        assert(s.last() == x);
        assert(chain_reports(catalog, level_model(catalog, m, x), s.drop_last()) =~= Seq::empty());
        assert(chain_reports(catalog, m, s) =~= level_reports(catalog, m, x));
        assert(chain_reports(catalog, m, t) + level_reports(catalog, m, x) =~= level_reports(catalog, m, x));
    } else {
        assert(s.last() == t.last());
        assert(s.drop_last() =~= seq![x] + t.drop_last());
        let m1 = level_model(catalog, m, t.last());
        lemma_chain_reports_front(catalog, m1, x, t.drop_last());
        assert(chain_model(catalog, m, t) == chain_model(catalog, m1, t.drop_last()));
        assert(chain_reports(catalog, m, s) =~= level_reports(catalog, m, t.last()) + (chain_reports(
            catalog,
            m1,
            t.drop_last(),
        ) + level_reports(catalog, chain_model(catalog, m1, t.drop_last()), x)));
    }
}

proof fn lemma_first_named(styles: Seq<StyleDecl>, name: Seq<char>, i: int)
    requires
        0 <= i <= styles.len(),
        forall|k: int| 0 <= k < i ==> (#[trigger] styles[k]).name@ != name,
    ensures
        i < styles.len() && styles[i].name@ == name ==> first_named(styles, name) == Some(styles[i]),
        i == styles.len() ==> first_named(styles, name) is None,
    decreases i,
{
    if i > 0 {
        let rest = styles.drop_first();
        assert forall|k: int| 0 <= k < i - 1 implies (#[trigger] rest[k]).name@ != name by {
            assert(rest[k] == styles[k + 1]);
        }
        lemma_first_named(rest, name, i - 1);
        if i < styles.len() {
            assert(rest[i - 1] == styles[i]);
        }
    }
}

/// The names of a list of style declarations.
pub open spec fn style_names(styles: Seq<StyleDecl>) -> Seq<Seq<char>> {
    styles.map_values(|s: StyleDecl| s.name@)
}

fn find_style<'a>(styles: &'a Vec<StyleDecl>, name: &str) -> (r: Option<&'a StyleDecl>)
    ensures
        r matches Some(s) ==> s.name@ == name@ && style_names(styles@).contains(s.name@),
        r is None ==> !style_names(styles@).contains(name@),
        match r {
            Some(s) => first_named(styles@, name@) == Some(*s),
            None => first_named(styles@, name@) is None,
        },
{
    let mut i: usize = 0;
    while i < styles.len()
        invariant
            i <= styles@.len(),
            forall|k: int| 0 <= k < i ==> (#[trigger] styles@[k]).name@ != name@,
        decreases styles@.len() - i,
    {
        if str_eq(styles[i].name.as_str(), name) {
            assert(style_names(styles@)[i as int] == name@);
            proof {
                lemma_first_named(styles@, name@, i as int);
            }
            return Some(&styles[i]);
        }
        i = i + 1;
    }
    assert(!style_names(styles@).contains(name@)) by {
        if style_names(styles@).contains(name@) {
            let k = choose|k: int| 0 <= k < style_names(styles@).len() && style_names(styles@)[k] == name@;
            assert(styles@[k].name@ == name@);
        }
    }
    proof {
        lemma_first_named(styles@, name@, styles@.len() as int);
    }
    None
}

fn chain_has(chain: &Vec<&StyleDecl>, name: &str) -> (r: bool)
    ensures
        r == exists|i: int| 0 <= i < chain@.len() && (#[trigger] chain@[i]).name@ == name@,
{
    let mut i: usize = 0;
    while i < chain.len()
        invariant
            i <= chain@.len(),
            forall|k: int| 0 <= k < i ==> (#[trigger] chain@[k]).name@ != name@,
        decreases chain@.len() - i,
    {
        if str_eq(chain[i].name.as_str(), name) {
            return true;
        }
        i = i + 1;
    }
    false
}

/// The names of a chain of declarations.
spec fn chain_names(chain: Seq<&StyleDecl>) -> Seq<Seq<char>> {
    chain.map_values(|s: &StyleDecl| s.name@)
}

proof fn lemma_chain_bound(chain: Seq<&StyleDecl>, pool: Seq<Seq<char>>)
    requires
        chain.len() >= 1,
        chain_names(chain).no_duplicates(),
        forall|i: int| 1 <= i < chain.len() ==> pool.contains(#[trigger] chain[i].name@),
    ensures
        chain.len() <= pool.len() + 1,
{
    let rest = chain_names(chain).drop_first();
    assert(rest.no_duplicates()) by {
        assert forall|a: int, b: int| 0 <= a < rest.len() && 0 <= b < rest.len() && a != b implies rest[a]
            != rest[b] by {
            assert(rest[a] == chain_names(chain)[a + 1]);
            assert(rest[b] == chain_names(chain)[b + 1]);
        }
    }
    rest.unique_seq_to_set();
    vstd::seq_lib::seq_to_set_is_finite(pool);
    assert(rest.to_set().subset_of(pool.to_set())) by {
        assert forall|x: Seq<char>| rest.to_set().contains(x) implies pool.to_set().contains(x) by {
            let k = choose|k: int| 0 <= k < rest.len() && rest[k] == x;
            assert(chain[k + 1].name@ == x);
        }
    }
    pool.lemma_cardinality_of_set();
    vstd::set_lib::lemma_len_subset(rest.to_set(), pool.to_set());
}

/// How a walk up the parents that ended at the declarations `chain` went wrong, as the
/// code of its error: its last declaration names a parent that no declaration names, or a
/// parent that the walk has already passed (a cycle); `None` where it ended at a declaration
/// without a parent. The error stands at the declaration where the walk stopped.
pub open spec fn walk_error(styles: Seq<StyleDecl>, chain: Seq<StyleDecl>) -> Option<Seq<char>> {
    match chain.last().parent {
        Some(p) => match first_named(styles, p@) {
            Some(_) => Some("ML_STYLE_INHERITANCE_CYCLE"@),
            None => Some("ML_STYLE_UNKNOWN_NAME"@),
        },
        None => None,
    }
}

/// The context that a style declaration defines: its parent's context (or the
/// built-in style of the same name) with the declaration's entries applied,
/// under the declaration's own name. A cycle of parents or an unknown parent is
/// reported first, and the walk stops there; then come the reports of each level's
/// settings, from the top of the chain down.
pub fn style_from_program(
    catalog: &TheoryCatalog,
    program: &Program,
    style: &StyleDecl,
) -> (r: (StyleContext, Vec<Diagnostic>))
    ensures
        r.0.name@ == style.name@,
        style_errors(r.1@),
        crate::style::classes_listed_once(r.0),
        match walk_error(program.styles@, style_chain(program.styles@, *style).0) {
            Some(code) => r.1@.len() >= 1 && r.1@[0].code@ == code && r.1@[0].span == Some(
                style_chain(program.styles@, *style).1.span,
            ),
            None => true,
        },
        ({
            let (chain, top) = style_chain(program.styles@, *style);
            let w: int = if walk_error(program.styles@, chain) is Some {
                1
            } else {
                0
            };
            &&& r.1@.len() >= w
            &&& reported_as(
                r.1@.skip(w),
                chain_reports(*catalog, crate::style::built_in_model(top.name@), chain),
            )
        }),
        style_model(r.0) == chain_model(
            *catalog,
            crate::style::built_in_model(style_chain(program.styles@, *style).1.name@),
            style_chain(program.styles@, *style).0,
        ),
{
    let mut chain: Vec<&StyleDecl> = Vec::new();
    let mut cur: &StyleDecl = style;
    let mut diagnostics: Vec<Diagnostic> = Vec::new();
    let mut base_name: &StyleDecl = style;
    let mut done = false;
    let ghost styles = program.styles@;
    let ghost fuel: nat = (styles.len() + 2) as nat;
    assert(chain@.map_values(|d: &StyleDecl| *d) =~= Seq::<StyleDecl>::empty());
    while !done
        invariant
            styles == program.styles@,
            fuel == styles.len() + 2,
            !done ==> style_chain(styles, *style) == chain_from(
                styles,
                *cur,
                chain@.map_values(|d: &StyleDecl| *d),
                (fuel - chain@.len()) as nat,
            ),
            done ==> style_chain(styles, *style) == (chain@.map_values(|d: &StyleDecl| *d), *base_name),
            chain_names(chain@).no_duplicates(),
            chain@.len() >= 1 ==> chain@[0] == style,
            forall|i: int|
                1 <= i < chain@.len() ==> style_names(program.styles@).contains(
                    #[trigger] chain@[i].name@,
                ),
            !done ==> (chain@.len() == 0 ==> cur == style),
            !done ==> (chain@.len() >= 1 ==> style_names(program.styles@).contains(cur.name@)),
            done ==> chain@.len() >= 1,
            style_errors(diagnostics@),
            !done ==> diagnostics@.len() == 0,
            !done && chain@.len() >= 1 ==> (chain@.last().parent matches Some(p) && first_named(
                styles,
                p@,
            ) == Some(*cur)),
            done ==> match walk_error(styles, chain@.map_values(|d: &StyleDecl| *d)) {
                Some(code) => diagnostics@.len() == 1 && diagnostics@[0].code@ == code
                    && diagnostics@[0].span == Some(base_name.span),
                None => diagnostics@.len() == 0,
            },
            chain@.len() <= program.styles@.len() + 1,
        decreases program.styles@.len() + 2 - chain@.len() - if done {
            1int
        } else {
            0int
        },
    {
        let ghost seen = chain@.map_values(|d: &StyleDecl| *d);
        let ghost f = (fuel - chain@.len()) as nat;
        assert(f > 0);
        if chain_has(&chain, cur.name.as_str()) {
            proof {
                let i = choose|i: int| 0 <= i < chain@.len() && (#[trigger] chain@[i]).name@ == cur.name@;
                assert(seen[i].name@ == cur.name@);
            }
            base_name = cur;
            let message = concat3("style inheritance cycle at `", cur.name.as_str(), "`");
            let d = Diagnostic::error(
                "ML_STYLE_INHERITANCE_CYCLE",
                message.as_str(),
                cur.line,
                cur.column,
            ).with_span(cur.span);
            diagnostics.push(d);
            done = true;
        } else {
            let ghost old_chain = chain@;
            proof {
                assert(!(exists|i: int| 0 <= i < seen.len() && (#[trigger] seen[i]).name@ == cur.name@)) by {
                    if exists|i: int| 0 <= i < seen.len() && (#[trigger] seen[i]).name@ == cur.name@ {
                        let i = choose|i: int| 0 <= i < seen.len() && (#[trigger] seen[i]).name@ == cur.name@;
                        assert(chain@[i].name@ == cur.name@);
                    }
                }
            }
            chain.push(cur);
            assert(chain@.map_values(|d: &StyleDecl| *d) =~= seen.push(*cur));
            proof {
                assert(chain_names(chain@) =~= chain_names(old_chain).push(cur.name@));
                assert(chain_names(chain@).no_duplicates()) by {
                    assert forall|a: int, b: int|
                        0 <= a < chain@.len() && 0 <= b < chain@.len() && a != b implies chain_names(
                        chain@,
                    )[a] != chain_names(chain@)[b] by {
                        if a < old_chain.len() && b < old_chain.len() {
                            assert(chain_names(old_chain)[a] == chain_names(chain@)[a]);
                            assert(chain_names(old_chain)[b] == chain_names(chain@)[b]);
                        } else if a == old_chain.len() {
                            assert(chain@[b] == old_chain[b]);
                        } else {
                            assert(chain@[a] == old_chain[a]);
                        }
                    }
                }
                assert forall|i: int| 1 <= i < chain@.len() implies style_names(
                    program.styles@,
                ).contains(#[trigger] chain@[i].name@) by {
                    if i < old_chain.len() {
                        assert(chain@[i] == old_chain[i]);
                    }
                }
                lemma_chain_bound(chain@, style_names(program.styles@));
                assert(style_names(program.styles@).len() == program.styles@.len());
            }
            match &cur.parent {
                Some(parent_name) => {
                    match find_style(&program.styles, parent_name.as_str()) {
                        Some(parent) => {
                            cur = parent;
                        },
                        None => {
                            base_name = cur;
                            let message = concat3(
                                "unknown parent style `",
                                parent_name.as_str(),
                                "`",
                            );
                            let d = Diagnostic::error(
                                "ML_STYLE_UNKNOWN_NAME",
                                message.as_str(),
                                cur.line,
                                cur.column,
                            ).with_span(cur.span);
                            diagnostics.push(d);
                            done = true;
                        },
                    }
                },
                None => {
                    base_name = cur;
                    done = true;
                },
            }
        }
    }
    let mut context = StyleContext::named(base_name.name.as_str());
    let ghost cs = chain@.map_values(|d: &StyleDecl| *d);
    let ghost base = crate::style::built_in_model(base_name.name@);
    let ghost d0 = diagnostics@;
    let mut i = chain.len();
    assert(cs.subrange(i as int, cs.len() as int) =~= Seq::<StyleDecl>::empty());
    assert(diagnostics@.take(d0.len() as int) =~= d0);
    assert(diagnostics@.skip(d0.len() as int) =~= Seq::<Diagnostic>::empty());
    while i > 0
        invariant
            i <= chain@.len(),
            chain@.len() >= 1,
            chain@[0] == style,
            i == 0 ==> context.name@ == style.name@,
            style_errors(diagnostics@),
            crate::style::classes_listed_once(context),
            diagnostics@.len() >= d0.len(),
            diagnostics@.take(d0.len() as int) == d0,
            cs == chain@.map_values(|d: &StyleDecl| *d),
            style_chain(program.styles@, *style) == (cs, *base_name),
            base == crate::style::built_in_model(base_name.name@),
            style_model(context) == chain_model(*catalog, base, cs.subrange(i as int, cs.len() as int)),
            reported_as(
                diagnostics@.skip(d0.len() as int),
                chain_reports(*catalog, base, cs.subrange(i as int, cs.len() as int)),
            ),
        decreases i,
    {
        i = i - 1;
        let level = chain[i];
        let ghost before = diagnostics@;
        let ghost m_before = style_model(context);
        apply_entries(catalog, level, &mut context, &mut diagnostics);
        context.name = level.name.clone();
        proof {
            assert(diagnostics@.take(d0.len() as int) =~= before.take(d0.len() as int)) by {
                assert forall|k: int| 0 <= k < d0.len() implies diagnostics@[k] == before[k] by {
                    assert(diagnostics@.take(before.len() as int)[k] == diagnostics@[k]);
                }
            }
            let tail = cs.subrange(i + 1, cs.len() as int);
            assert(cs.subrange(i as int, cs.len() as int) =~= seq![cs[i as int]] + tail);
            lemma_chain_model_front(*catalog, base, cs[i as int], tail);
            lemma_chain_reports_front(*catalog, base, cs[i as int], tail);
            lemma_reported_append(
                before,
                d0.len() as int,
                diagnostics@,
                chain_reports(*catalog, base, tail),
                level_reports(*catalog, m_before, cs[i as int]),
            );
        }
    }
    assert(cs.subrange(0, cs.len() as int) =~= cs);
    (context, diagnostics)
}

} // verus!
