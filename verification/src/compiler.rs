use vstd::prelude::*;

use crate::analysis::{
    cadence_matches, contains_classes, events_form_mordent, events_form_neighbor_tone,
    events_form_passing_tone, events_form_trill, events_form_turn, final_sonorities,
    built_in_rule, harmonic_functions, interval_mod_12, key_signature, known_rule, motion_type,
    track_has_hemiola, track_has_repeated_duration_cell, track_has_swing, track_has_syncopation,
    tracks_are_heterophonic, tracks_share_attack_grid, contains_all,
};
use crate::ast::{
    ForStmt,
    ArticulationStmt, BinaryOp, ChordStmt, DynamicStmt, Expr, ExprKind, NoteStmt, OverrideStmt,
    Program, ScoreMeta, Stmt, VoiceDecl, WithStyleStmt,
};
use crate::diagnostic::{Diagnostic, RuleSeverity, Severity, Span};
use crate::eval::{copy_value, lemma_models_index, lemma_models_push, model, models, Value, ValueModel};
use crate::ir::{
    KeySignature, MarkerIr, Meter, NoteEventIr, OverrideTrace, ScoreIr, TrackIr};
use crate::music::{Chord, Duration, Interval, Note, Pitch, PitchClass, DEFAULT_TICKS_PER_QUARTER};
use crate::lexer::lex_diagnostic;
use crate::parser::{parse_diagnostic, parse_source};
use crate::style::{built_in_model, severity_lookup, style_model, StyleContext};
use crate::stylebuild::{chain_model, style_chain, style_from_program};
use crate::text::{append, concat, concat3, i64_text, owned, str_eq, trim_seq, u64_text};
use crate::theory::{theory_catalog, TheoryCatalog, TheoryDomain};
use crate::track::{saturating, sorted_by_start, TrackBuilder};
use crate::vocab::{
    velocity_of,
    chord_matches_quality, chord_matches_set_class, dynamic_velocity, form_labels_match_catalog,
    meter_matches_catalog, chord_fits, form_fits,
};

verus! {

/// A compiled score together with the warnings that compiling it gave.
#[derive(Debug, Clone, PartialEq, Eq)]
pub struct Compilation {
    pub ir: ScoreIr,
    pub diagnostics: Vec<Diagnostic>,
}

/// Whether some diagnostic is an error.
pub open spec fn has_error(ds: Seq<Diagnostic>) -> bool {
    exists|i: int| 0 <= i < ds.len() && (#[trigger] ds[i]).severity == Severity::Error
}

/// What every lowered score keeps: the default resolution, MIDI velocities, and
/// events of each track in the order of their start ticks.
pub open spec fn well_lowered(ir: ScoreIr) -> bool {
    &&& ir.ticks_per_quarter == DEFAULT_TICKS_PER_QUARTER
    &&& forall|t: int| 0 <= t < ir.tracks@.len() ==> tracks_ok(#[trigger] ir.tracks@[t])
}

/// An error diagnostic with a code and a message, placed at a span.
pub open spec fn spanned_error(d: Diagnostic, code: Seq<char>, message: Seq<char>, span: Span) -> bool {
    &&& d.code@ == code
    &&& d.severity == Severity::Error
    &&& d.message@ == message
    &&& d.line == span.line
    &&& d.column == span.column
    &&& d.span == Some(span)
}

/// `next` holds the diagnostics of `before` and one more, `d`.
pub open spec fn one_more(before: Seq<Diagnostic>, next: Seq<Diagnostic>) -> bool {
    next.len() == before.len() + 1 && next.drop_last() == before
}

proof fn lemma_reports_extend(
    c: Compiler,
    ds: Seq<Diagnostic>,
    next: Seq<Diagnostic>,
    n0: int,
    rules: Seq<(Seq<char>, Seq<char>)>,
    extra: Seq<(Seq<char>, Seq<char>)>,
)
    requires
        0 <= n0 <= ds.len() <= next.len(),
        next.take(ds.len() as int) == ds,
        c.reports_all(ds.skip(n0), rules),
        c.reports_all(next.skip(ds.len() as int), extra),
    ensures
        next.take(n0) == ds.take(n0),
        c.reports_all(next.skip(n0), rules + extra),
{
    assert(next.take(n0) =~= ds.take(n0)) by {
        assert forall|k: int| 0 <= k < n0 implies next[k] == ds[k] by {
            assert(next.take(ds.len() as int)[k] == next[k]);
        }
    }
    let all = next.skip(n0);
    assert forall|k: int| 0 <= k < all.len() implies c.reports(#[trigger] all[k], (rules + extra)[k].0, (rules + extra)[k].1) by {
        if k < rules.len() {
            assert(all[k] == ds.skip(n0)[k]) by {
                assert(next.take(ds.len() as int)[n0 + k] == next[n0 + k]);
            }
        } else {
            assert(all[k] == next.skip(ds.len() as int)[k - rules.len()]);
        }
    }
}

/// One rule check either added nothing or one diagnostic that reports the rule, as `fired` says.
proof fn lemma_fired_diags(
    c: Compiler,
    ds: Seq<Diagnostic>,
    next: Seq<Diagnostic>,
    rule: Seq<char>,
    code: Seq<char>,
    violated: bool,
)
    requires
        violated && c.severity_of(rule) != RuleSeverity::Off ==> next.len() == ds.len() + 1
            && next.drop_last() == ds && c.reports(next.last(), rule, code),
        !(violated && c.severity_of(rule) != RuleSeverity::Off) ==> next == ds,
    ensures
        next.len() >= ds.len(),
        next.take(ds.len() as int) == ds,
        c.reports_all(next.skip(ds.len() as int), c.fired(rule, code, violated)),
{
    if violated && c.severity_of(rule) != RuleSeverity::Off {
        assert(next.take(ds.len() as int) =~= next.drop_last());
        assert(next.skip(ds.len() as int) =~= seq![next.last()]);
    } else {
        assert(next.take(ds.len() as int) =~= ds);
        assert(next.skip(ds.len() as int) =~= Seq::<Diagnostic>::empty());
    }
}

proof fn lemma_rows_rules_short(c: Compiler, tracks: Seq<TrackIr>, u: int)
    requires
        tracks.len() < 2,
        0 <= u <= tracks.len(),
    ensures
        c.rows_rules(tracks, u) == Seq::<(Seq<char>, Seq<char>)>::empty(),
    decreases u,
{
    if u > 0 {
        lemma_rows_rules_short(c, tracks, u - 1);
        assert(c.row_rules(tracks, u - 1, tracks.len() as int) == Seq::<(Seq<char>, Seq<char>)>::empty());
        assert(Seq::<(Seq<char>, Seq<char>)>::empty() + Seq::<(Seq<char>, Seq<char>)>::empty()
            =~= Seq::<(Seq<char>, Seq<char>)>::empty());
    }
}

/// The pitches among a list's values, in order.
pub open spec fn list_pitches(vs: Seq<ValueModel>) -> Seq<Pitch>
    decreases vs.len(),
{
    if vs.len() == 0 {
        Seq::empty()
    } else {
        list_pitches(vs.drop_last()) + match vs.last() {
            ValueModel::Pitch(p) => seq![p],
            _ => Seq::empty(),
        }
    }
}

/// The pitches that one chord item gives: a pitch, or the pitches of a list.
pub open spec fn item_pitches(m: Option<ValueModel>) -> Seq<Pitch> {
    match m {
        Some(ValueModel::Pitch(p)) => seq![p],
        Some(ValueModel::List(vs)) => list_pitches(vs),
        _ => Seq::empty(),
    }
}

/// The pitches that a chord's items give, in order.
pub open spec fn chord_pitches(scopes: Seq<Vec<(String, Value)>>, exprs: Seq<Expr>) -> Seq<Pitch>
    decreases exprs.len(),
{
    if exprs.len() == 0 {
        Seq::empty()
    } else {
        chord_pitches(scopes, exprs.drop_last()) + item_pitches(expr_model(scopes, exprs.last()))
    }
}

/// What compiling a note does to a track: with a pitch and a duration, one event at the cursor
/// and the cursor moved past it; otherwise nothing.
pub open spec fn note_effect(scopes: Seq<Vec<(String, Value)>>, note: NoteStmt, t0: TrackBuilder, t1: TrackBuilder) -> bool {
    match note_value(scopes, note.pitch_expr, note.duration_expr) {
        Some((p, d)) => {
            &&& t1.events_spec() == t0.events_spec().push(
                t0.event_at(p, t0.cursor_spec(), t0.ticks_for(d), Some(note.span)),
            )
            &&& t1.cursor_spec() == saturating(t0.cursor_spec(), t0.ticks_for(d))
        },
        None => t1 == t0,
    }
}

/// What compiling a chord does to a track: with a duration and at least one pitch, one event
/// per pitch at the cursor and the cursor moved past them; otherwise nothing.
pub open spec fn chord_effect(scopes: Seq<Vec<(String, Value)>>, chord: ChordStmt, t0: TrackBuilder, t1: TrackBuilder) -> bool {
    let ps = chord_pitches(scopes, chord.pitch_exprs@);
    match expr_model(scopes, chord.duration_expr) {
        Some(ValueModel::Duration(d)) => if ps.len() > 0 {
            &&& t1.events_spec() == t0.events_spec() + Seq::new(
                ps.len(),
                |k: int| t0.event_at(ps[k], t0.cursor_spec(), t0.ticks_for(d), Some(chord.span)),
            )
            &&& t1.cursor_spec() == saturating(t0.cursor_spec(), t0.ticks_for(d))
        } else {
            t1 == t0
        },
        _ => t1 == t0,
    }
}

/// A vocabulary check of `word`: reported under `rule` and `code` where the vocabulary is not
/// empty, no override allows the rule and the word is outside it; otherwise nothing changes.
spec fn vocab_checked(c0: Compiler, c1: Compiler, vocab: Seq<String>, word: Seq<char>, rule: Seq<char>, code: Seq<char>) -> bool {
    if vocab.len() > 0 && !c0.suppresses(rule) && !text_in(vocab, word) {
        c0.reported(c1, rule, code)
    } else {
        c1 == c0
    }
}

/// `i` is the position of the first function, among those the compiler knows, named `name`.
spec fn first_function_named(program: Program, functions: Seq<usize>, name: Seq<char>, i: int) -> bool {
    &&& 0 <= i < functions.len()
    &&& program.functions@[functions[i] as int].name@ == name
    &&& forall|j: int| 0 <= j < i ==> program.functions@[(#[trigger] functions[j]) as int].name@ != name
}

/// The step left the track and everything but the diagnostics as they were, and reported one
/// error under `code`.
spec fn refused(c0: Compiler, c1: Compiler, t0: TrackBuilder, t1: TrackBuilder, code: Seq<char>) -> bool {
    &&& t1 == t0
    &&& c0.only_diagnostics(c1)
    &&& one_more(c0.diagnostics@, c1.diagnostics@)
    &&& c1.diagnostics@.last().code@ == code
    &&& c1.diagnostics@.last().severity == Severity::Error
}

/// How many times a `for` runs its body: once for each value from its start up to its end.
pub open spec fn for_count(f: ForStmt) -> int {
    if f.end > f.start {
        f.end - f.start
    } else {
        0
    }
}

/// The passes of a `for` over its body, one for each value from its start, in order: each pass
/// is the compiler as the pass begins, with the loop variable bound to the pass's value in a
/// scope of its own, and the track before and after the pass; the track goes from `t0` through
/// the passes to `t1`.
spec fn for_runs(
    c0: Compiler,
    f: ForStmt,
    runs: Seq<(Compiler, TrackBuilder, TrackBuilder)>,
    t0: TrackBuilder,
    t1: TrackBuilder,
) -> bool {
    &&& runs.len() == for_count(f)
    &&& forall|k: int|
        0 <= k < runs.len() ==> lookup((#[trigger] runs[k]).0.variables@, f.variable@) == Some(
            Value::Int((f.start + k) as i32),
        ) && runs[k].0.variables@.len() == c0.variables@.len() + 1
    &&& forall|k: int| 0 <= k < runs.len() - 1 ==> (#[trigger] runs[k]).2 == runs[k + 1].1
    &&& runs.len() == 0 ==> t1 == t0
    &&& runs.len() > 0 ==> runs[0].1 == t0 && runs.last().2 == t1
}

/// The trace that an override leaves: its rule, its reason and its place.
spec fn traces(t: OverrideTrace, o: OverrideStmt) -> bool {
    &&& t.rule@ == o.rule@
    &&& match (t.reason, o.reason) {
        (Some(a), Some(b)) => a@ == b@,
        (None, None) => true,
        _ => false,
    }
    &&& t.line == o.line
    &&& t.column == o.column
}

/// What compiling one statement does, where it is stated: a note, a chord, a rest, a velocity,
/// a dynamic, an articulation, the marker that a section sets, the passes of a `for`, a `let`,
/// an `if` whose condition does not hold, a call that cannot be made, an override (the trace
/// it leaves, or the unknown rule it names), a style block (which leaves the style as it found it, and does nothing but
/// report where the style does not exist), and the statements that the compiler does not
/// support; the others keep only the compiler's frame.
spec fn statement_effect(program: Program, c0: Compiler, c1: Compiler, statement: Stmt, t0: TrackBuilder, t1: TrackBuilder) -> bool {
    match statement {
        Stmt::For(f) => exists|runs: Seq<(Compiler, TrackBuilder, TrackBuilder)>| #[trigger] for_runs(c0, f, runs, t0, t1),
        Stmt::Note(note) => note_effect(c0.variables@, note, t0, t1),
        Stmt::Chord(chord) => chord_effect(c0.variables@, chord, t0, t1),
        Stmt::Rest(rest) => match expr_model(c0.variables@, rest.duration_expr) {
            Some(ValueModel::Duration(d)) => t1.cursor_spec() == saturating(
                t0.cursor_spec(),
                t0.ticks_for(d),
            ) && t1.events_spec() == t0.events_spec(),
            _ => t1 == t0,
        },
        Stmt::Velocity(v) => t1.velocity_spec() == (if v.velocity > 127 {
            127u8
        } else {
            v.velocity
        }) && t1.events_spec() == t0.events_spec() && t1.cursor_spec()
            == t0.cursor_spec(),
        Stmt::Dynamic(d) => {
            &&& t1.events_spec() == t0.events_spec()
            &&& t1.cursor_spec() == t0.cursor_spec()
            &&& match velocity_of(c0.catalog, d.mark@) {
                Some(v) => t1.velocity_spec() as int == if v > 127 {
                    127
                } else {
                    v
                },
                None => t1.velocity_spec() == t0.velocity_spec(),
            }
            &&& vocab_checked(
                c0,
                c1,
                c0.style.dynamic_vocab@,
                d.mark@,
                "dynamic_vocab"@,
                "ML_STYLE_DYNAMIC_VOCAB"@,
            )
        },
        Stmt::Articulation(a) => {
            &&& t1.articulation_spec() matches Some(x) && x@ == a.mark@
            &&& t1.events_spec() == t0.events_spec()
            &&& t1.cursor_spec() == t0.cursor_spec()
            &&& t1.velocity_spec() == t0.velocity_spec()
            &&& vocab_checked(
                c0,
                c1,
                c0.style.articulation_vocab@,
                a.mark@,
                "articulation_vocab"@,
                "ML_STYLE_ARTICULATION_VOCAB"@,
            )
        },
        Stmt::Section(sec) => {
            &&& c1.markers@.len() > c0.markers@.len()
            &&& c1.markers@[c0.markers@.len() as int].label@ == sec.label@
            &&& c1.markers@[c0.markers@.len() as int].tick == t0.cursor_spec()
        },
        Stmt::If(s) => !(expr_model(c0.variables@, s.condition) matches Some(ValueModel::Bool(true)))
            ==> t1 == t0,
        Stmt::Call(call) => if forall|j: int|
            0 <= j < c0.functions@.len() ==> program.functions@[(#[trigger] c0.functions@[j]) as int].name@
                != call.name@ {
            refused(c0, c1, t0, t1, "ML_RESOLVE_UNKNOWN_NAME"@) && spanned_error(
                c1.diagnostics@.last(),
                "ML_RESOLVE_UNKNOWN_NAME"@,
                "unknown function `"@ + call.name@ + "`"@,
                call.span,
            )
        } else {
            forall|i: int|
                #[trigger] first_function_named(program, c0.functions@, call.name@, i) && c0.active@[i]
                    ==> refused(c0, c1, t0, t1, "ML_RESOLVE_RECURSIVE_CALL"@) && spanned_error(
                    c1.diagnostics@.last(),
                    "ML_RESOLVE_RECURSIVE_CALL"@,
                    "recursive function call `"@ + call.name@ + "`"@,
                    call.span,
                )
        },
        Stmt::Override(o) => if !(built_in_rule(o.rule@) || exists|i: int|
            0 <= i < c0.style.custom_rules@.len() && (#[trigger] c0.style.custom_rules@[i]).id@
                == o.rule@) {
            refused(c0, c1, t0, t1, "ML_STYLE_UNKNOWN_RULE"@)
        } else {
            c1.override_traces@.len() > c0.override_traces@.len() && traces(
                c1.override_traces@[c0.override_traces@.len() as int],
                o,
            )
        },
        Stmt::WithStyle(w) => {
            &&& c1.style == c0.style
            &&& (forall|j: int|
                0 <= j < program.styles@.len() ==> (#[trigger] program.styles@[j]).name@ != w.style@)
                ==> t1 == t0 && one_more(c0.diagnostics@, c1.diagnostics@)
        },
        Stmt::Let(l) => match expr_model(c0.variables@, l.value_expr) {
            Some(m) => lookup(c1.variables@, l.name@) matches Some(v) && model(v) == m,
            None => c1.variables == c0.variables,
        },
        Stmt::Degree(_) | Stmt::Pedal(_) | Stmt::Ostinato(_) | Stmt::Sequence(_)
        | Stmt::Transpose(_) | Stmt::Roman(_) | Stmt::Progression(_) | Stmt::Cadence(_)
        | Stmt::Modulate(_) => t1 == t0 && one_more(
            c0.diagnostics@,
            c1.diagnostics@,
        ) && c1.diagnostics@.last().code@ == "ML_EVAL_UNSUPPORTED_OP"@,
        _ => true,
    }
}

/// The compiler and track states `cs` and `ts` step through `stmts` one statement at a time,
/// each step doing what `statement_effect` states.
spec fn runs_through(program: Program, cs: Seq<Compiler>, ts: Seq<TrackBuilder>, stmts: Seq<Stmt>) -> bool {
    &&& cs.len() == stmts.len() + 1
    &&& ts.len() == stmts.len() + 1
    &&& forall|i: int|
        0 <= i < stmts.len() ==> statement_effect(program, cs[i], cs[i + 1], #[trigger] stmts[i], ts[i], ts[i + 1])
}

/// How many of the statements are voices.
pub open spec fn voice_count(stmts: Seq<Stmt>) -> nat
    decreases stmts.len(),
{
    if stmts.len() == 0 {
        0
    } else {
        voice_count(stmts.drop_last()) + if stmts.last() is Voice {
            1nat
        } else {
            0nat
        }
    }
}

/// The pitch and duration that a note's expressions evaluate to, when both evaluate to one.
pub open spec fn note_value(scopes: Seq<Vec<(String, Value)>>, pitch: Expr, duration: Expr) -> Option<
    (Pitch, Duration),
> {
    match (expr_model(scopes, pitch), expr_model(scopes, duration)) {
        (Some(ValueModel::Pitch(p)), Some(ValueModel::Duration(d))) => Some((p, d)),
        _ => None,
    }
}

/// The value bound to `name` in one scope: its first binding there.
pub open spec fn scope_lookup(scope: Seq<(String, Value)>, name: Seq<char>) -> Option<Value>
    decreases scope.len(),
{
    if scope.len() == 0 {
        None
    } else if scope[0].0@ == name {
        Some(scope[0].1)
    } else {
        scope_lookup(scope.subrange(1, scope.len() as int), name)
    }
}

/// The value bound to `name` in the innermost scope that binds it.
pub open spec fn lookup(scopes: Seq<Vec<(String, Value)>>, name: Seq<char>) -> Option<Value>
    decreases scopes.len(),
{
    if scopes.len() == 0 {
        None
    } else {
        match scope_lookup(scopes.last()@, name) {
            Some(v) => Some(v),
            None => lookup(scopes.drop_last(), name),
        }
    }
}

proof fn lemma_scope_lookup_skip(scope: Seq<(String, Value)>, name: Seq<char>, i: int)
    requires
        0 <= i <= scope.len(),
        forall|j: int| 0 <= j < i ==> (#[trigger] scope[j]).0@ != name,
    ensures
        scope_lookup(scope, name) == scope_lookup(scope.subrange(i, scope.len() as int), name),
    decreases i,
{
    if i > 0 {
        let rest = scope.subrange(1, scope.len() as int);
        assert forall|j: int| 0 <= j < i - 1 implies (#[trigger] rest[j]).0@ != name by {
            assert(rest[j] == scope[j + 1]);
        }
        lemma_scope_lookup_skip(rest, name, i - 1);
        assert(rest.subrange(i - 1, rest.len() as int) =~= scope.subrange(i, scope.len() as int));
    } else {
        assert(scope.subrange(0, scope.len() as int) =~= scope);
    }
}

proof fn lemma_scope_lookup_at(scope: Seq<(String, Value)>, name: Seq<char>, i: int)
    requires
        0 <= i < scope.len(),
        forall|j: int| 0 <= j < i ==> (#[trigger] scope[j]).0@ != name,
        scope[i].0@ == name,
    ensures
        scope_lookup(scope, name) == Some(scope[i].1),
{
    lemma_scope_lookup_skip(scope, name, i);
    assert(scope.subrange(i, scope.len() as int)[0] == scope[i]);
}

proof fn scope_lookup_replace(
    a: Seq<(String, Value)>,
    b: Seq<(String, Value)>,
    other: Seq<char>,
    name: Seq<char>,
    k: int,
)
    requires
        a.len() == b.len(),
        0 <= k < a.len(),
        a[k].0@ == name,
        b[k].0@ == name,
        other != name,
        forall|j: int| 0 <= j < a.len() && j != k ==> #[trigger] b[j] == a[j],
    ensures
        scope_lookup(b, other) == scope_lookup(a, other),
    decreases a.len(),
{
    if a.len() > 0 {
        let ra = a.subrange(1, a.len() as int);
        let rb = b.subrange(1, b.len() as int);
        if k == 0 {
            assert(ra =~= rb) by {
                assert forall|j: int| 0 <= j < ra.len() implies ra[j] == rb[j] by {
                    assert(b[j + 1] == a[j + 1]);
                }
            }
        } else {
            assert(b[0] == a[0]);
            assert forall|j: int| 0 <= j < ra.len() && j != k - 1 implies #[trigger] rb[j] == ra[j] by {
                assert(b[j + 1] == a[j + 1]);
            }
            scope_lookup_replace(ra, rb, other, name, k - 1);
        }
    }
}

proof fn scope_lookup_push(a: Seq<(String, Value)>, b: Seq<(String, Value)>, other: Seq<char>)
    requires
        b.len() == a.len() + 1,
        forall|j: int| 0 <= j < a.len() ==> #[trigger] b[j] == a[j],
        b.last().0@ != other,
    ensures
        scope_lookup(b, other) == scope_lookup(a, other),
    decreases a.len(),
{
    if a.len() == 0 {
        reveal_with_fuel(scope_lookup, 2);
        assert(b.subrange(1, b.len() as int) =~= Seq::<(String, Value)>::empty());
    } else {
        let ra = a.subrange(1, a.len() as int);
        let rb = b.subrange(1, b.len() as int);
        assert(b[0] == a[0]);
        assert forall|j: int| 0 <= j < ra.len() implies #[trigger] rb[j] == ra[j] by {
            assert(b[j + 1] == a[j + 1]);
        }
        scope_lookup_push(ra, rb, other);
    }
}

proof fn lemma_scope_lookup_none(scope: Seq<(String, Value)>, name: Seq<char>)
    requires
        forall|j: int| 0 <= j < scope.len() ==> (#[trigger] scope[j]).0@ != name,
    ensures
        scope_lookup(scope, name) is None,
{
    lemma_scope_lookup_skip(scope, name, scope.len() as int);
}

/// What a binary operator gives: a pitch moved up (`+`) or down (`-`) by an interval, or whether
/// two integers or two booleans are equal. `None` for other operands, for a pitch moved out of
/// range, and for an interval that cannot be negated.
pub open spec fn binary_model(op: BinaryOp, a: ValueModel, b: ValueModel) -> Option<ValueModel> {
    match (op, a, b) {
        (BinaryOp::Add, ValueModel::Pitch(p), ValueModel::Interval(i)) => match p.transpose_spec(i) {
            Ok(q) => Some(ValueModel::Pitch(q)),
            Err(_) => None,
        },
        (BinaryOp::Sub, ValueModel::Pitch(p), ValueModel::Interval(i)) => if i.semitones_spec()
            == i16::MIN {
            None
        } else {
            match p.transpose_spec(i.neg_spec()) {
                Ok(q) => Some(ValueModel::Pitch(q)),
                Err(_) => None,
            }
        },
        (BinaryOp::Eq, ValueModel::Int(x), ValueModel::Int(y)) => Some(ValueModel::Bool(x == y)),
        (BinaryOp::Eq, ValueModel::Bool(x), ValueModel::Bool(y)) => Some(ValueModel::Bool(x == y)),
        _ => None,
    }
}

/// What a built-in call gives: `transpose(pitch, interval)`, `duration(text)`, `pitch(text)`
/// and `first(list)`; `None` for anything else and where the result does not exist.
pub open spec fn call_model(callee: Seq<char>, args: Seq<ValueModel>) -> Option<ValueModel> {
    if callee == "transpose"@ && args.len() == 2 && args[0] is Pitch && args[1] is Interval {
        match args[0]->Pitch_0.transpose_spec(args[1]->Interval_0) {
            Ok(q) => Some(ValueModel::Pitch(q)),
            Err(_) => None,
        }
    } else if callee == "duration"@ && args.len() == 1 && args[0] is Text {
        match Duration::literal_spec(args[0]->Text_0) {
            Some(d) => Some(ValueModel::Duration(d)),
            None => None,
        }
    } else if callee == "pitch"@ && args.len() == 1 && args[0] is Text {
        match Pitch::literal_spec(args[0]->Text_0) {
            Some(p) => Some(ValueModel::Pitch(p)),
            None => None,
        }
    } else if callee == "first"@ && args.len() == 1 && args[0] is List && args[0]->List_0.len() > 0 {
        Some(args[0]->List_0[0])
    } else {
        None
    }
}

/// What an expression evaluates to in `scopes`; `None` when evaluation fails.
pub open spec fn expr_model(scopes: Seq<Vec<(String, Value)>>, e: Expr) -> Option<ValueModel>
    decreases e, 1int,
{
    match e.kind {
        ExprKind::Ident(name) => match lookup(scopes, name@) {
            Some(v) => Some(model(v)),
            None => None,
        },
        ExprKind::Int(v) => Some(ValueModel::Int(v)),
        ExprKind::Bool(b) => Some(ValueModel::Bool(b)),
        ExprKind::PitchLiteral(t) => match Pitch::literal_spec(t@) {
            Some(p) => Some(ValueModel::Pitch(p)),
            None => None,
        },
        ExprKind::IntervalLiteral(t) => match Interval::literal_spec(t@) {
            Some(i) => Some(ValueModel::Interval(i)),
            None => None,
        },
        ExprKind::DurationLiteral(t) => match Duration::literal_spec(t@) {
            Some(d) => Some(ValueModel::Duration(d)),
            None => None,
        },
        ExprKind::StringLiteral(t) => Some(ValueModel::Text(t@)),
        ExprKind::List(items) => match list_model(scopes, items@) {
            Some(vs) => Some(ValueModel::List(vs)),
            None => None,
        },
        ExprKind::Call { callee, args } => match list_model(scopes, args@) {
            Some(vs) => call_model(callee@, vs),
            None => None,
        },
        ExprKind::Binary { op, left, right } => match (expr_model(scopes, *left), expr_model(scopes, *right)) {
            (Some(a), Some(b)) => binary_model(op, a, b),
            _ => None,
        },
    }
}

/// What a list of expressions evaluates to, item by item; `None` when any item fails.
pub open spec fn list_model(scopes: Seq<Vec<(String, Value)>>, items: Seq<Expr>) -> Option<Seq<ValueModel>>
    decreases items, 0int,
{
    if items.len() == 0 {
        Some(Seq::empty())
    } else {
        match (list_model(scopes, items.drop_last()), expr_model(scopes, items.last())) {
            (Some(vs), Some(v)) => Some(vs.push(v)),
            _ => None,
        }
    }
}

proof fn lemma_list_model_none(scopes: Seq<Vec<(String, Value)>>, items: Seq<Expr>, j: int)
    requires
        0 <= j <= items.len(),
        list_model(scopes, items.take(j)) is None,
    ensures
        list_model(scopes, items) is None,
    decreases items.len() - j,
{
    if j == items.len() {
        assert(items.take(j) =~= items);
    } else {
        assert(items.take(j + 1).drop_last() =~= items.take(j));
        lemma_list_model_none(scopes, items, j + 1);
    }
}

/// A track whose events come in start order with MIDI velocities.
pub open spec fn tracks_ok(track: TrackIr) -> bool {
    &&& sorted_by_start(track.events@)
    &&& forall|i: int| 0 <= i < track.events@.len() ==> (#[trigger] track.events@[i]).velocity <= 127
}

/// How many entries are `false`.
pub open spec fn inactive_count(s: Seq<bool>) -> nat
    decreases s.len(),
{
    if s.len() == 0 {
        0
    } else {
        inactive_count(s.drop_last()) + if s.last() {
            0nat
        } else {
            1nat
        }
    }
}

proof fn lemma_activate(s: Seq<bool>, i: int)
    requires
        0 <= i < s.len(),
        !s[i],
    ensures
        inactive_count(s.update(i, true)) + 1 == inactive_count(s),
    decreases s.len(),
{
    if i == s.len() - 1 {
        assert(s.update(i, true).drop_last() =~= s.drop_last());
    } else {
        assert(s.update(i, true).drop_last() =~= s.drop_last().update(i, true));
        lemma_activate(s.drop_last(), i);
    }
}

/// A non-chord-tone block waiting for the events that follow it.
struct PendingNonChordTone {
    kind: String,
    previous_event_index: Option<usize>,
    event_start: usize,
    event_end: usize,
    line: usize,
    column: usize,
}

/// The pitch classes of some pitches.
spec fn pitch_classes(pitches: Seq<Pitch>) -> Seq<PitchClass> {
    pitches.map_values(|p: Pitch| p.class_spec())
}

/// Whether a chord's classes, as many as one entry of the vocabulary has, cover that entry.
spec fn chord_in_vocab(vocab: Seq<Vec<PitchClass>>, classes: Seq<PitchClass>) -> bool {
    exists|w: int|
        0 <= w < vocab.len() && (#[trigger] vocab[w])@.len() == classes.len() && contains_all(
            classes,
            vocab[w]@,
        )
}

/// Whether a pitch lies outside the MIDI range of an instrument range.
spec fn out_of_range(pitch: Pitch, range: crate::style::InstrumentRange) -> bool {
    &&& pitch.midi_spec() matches Ok(m)
    &&& range.low.midi_spec() matches Ok(lo)
    &&& range.high.midi_spec() matches Ok(hi)
    &&& (m < lo || m > hi)
}

/// How many tracks have events.
spec fn tracks_with_events(tracks: Seq<TrackIr>) -> nat
    decreases tracks.len(),
{
    if tracks.len() == 0 {
        0
    } else {
        tracks_with_events(tracks.drop_last()) + if tracks.last().events@.len() > 0 {
            1nat
        } else {
            0nat
        }
    }
}

/// Whether the tracks have a texture: monophony at most one sounding track,
/// polyphony at least two, homophony one attack grid, heterophony a shared line;
/// any other name holds of every score.
spec fn texture_holds(texture: Seq<char>, tracks: Seq<TrackIr>) -> bool {
    if texture == "monophony"@ || texture == "monophonic"@ {
        tracks_with_events(tracks) <= 1
    } else if texture == "polyphony"@ || texture == "polyphonic"@ {
        tracks_with_events(tracks) >= 2
    } else if texture == "homophony"@ || texture == "homophonic"@ {
        crate::analysis::shared_attack_grid(tracks)
    } else if texture == "heterophony"@ || texture == "heterophonic"@ {
        crate::analysis::heterophonic(tracks)
    } else {
        true
    }
}

/// Whether a sequence holds another as a contiguous run.
spec fn contains_run(actual: Seq<Seq<char>>, expected: Seq<Seq<char>>) -> bool {
    exists|start: int|
        0 <= start && start + expected.len() <= actual.len() && #[trigger] actual.subrange(
            start,
            start + expected.len(),
        ) == expected
}

/// The rhythm concepts that the compiler knows how to check.
spec fn known_rhythm_concept(concept: Seq<char>) -> bool {
    concept == "ostinato"@ || concept == "syncopation"@ || concept == "hemiola"@ || concept
        == "swing"@
}

/// Whether a track shows a rhythm concept; any other name counts as swing.
spec fn track_shows(concept: Seq<char>, track: TrackIr) -> bool {
    if concept == "ostinato"@ {
        crate::analysis::repeated_duration_cell(track.events@)
    } else if concept == "syncopation"@ {
        crate::analysis::syncopated(track.events@)
    } else if concept == "hemiola"@ {
        crate::analysis::hemiola(track.events@)
    } else {
        crate::analysis::swung(track.events@)
    }
}

/// Whether an upper voice's pitch sounds below a lower voice's; a pitch without a
/// MIDI number counts as the lowest.
spec fn sounds_below(upper: Pitch, lower: Pitch) -> bool {
    match (upper.midi_spec(), lower.midi_spec()) {
        (Err(_), Ok(_)) => true,
        (Ok(u), Ok(l)) => u < l,
        _ => false,
    }
}

/// Whether some upper event sounds below a lower event that starts with it.
spec fn voices_cross(upper: Seq<NoteEventIr>, lower: Seq<NoteEventIr>) -> bool {
    exists|i: int, j: int|
        0 <= i < upper.len() && 0 <= j < lower.len() && (#[trigger] upper[i]).start_tick == (
        #[trigger] lower[j]).start_tick && sounds_below(upper[i].pitch, lower[j].pitch)
}

/// Whether two pitches have the same MIDI number, or neither has one.
spec fn same_midi(a: Pitch, b: Pitch) -> bool {
    match (a.midi_spec(), b.midi_spec()) {
        (Ok(x), Ok(y)) => x == y,
        (Err(_), Err(_)) => true,
        _ => false,
    }
}

/// The pairs of an upper event `i` with the lower events that start with it.
spec fn pairs_with(i: int, e: NoteEventIr, lower: Seq<NoteEventIr>) -> Seq<(usize, usize)>
    decreases lower.len(),
{
    if lower.len() == 0 {
        Seq::empty()
    } else {
        pairs_with(i, e, lower.drop_last()) + if e.start_tick == lower.last().start_tick {
            seq![(i as usize, (lower.len() - 1) as usize)]
        } else {
            Seq::empty()
        }
    }
}

/// The pairs of events of two voices that start together, in the upper voice's order.
spec fn simultaneous(upper: Seq<NoteEventIr>, lower: Seq<NoteEventIr>) -> Seq<(usize, usize)>
    decreases upper.len(),
{
    if upper.len() == 0 {
        Seq::empty()
    } else {
        simultaneous(upper.drop_last(), lower) + pairs_with(upper.len() - 1, upper.last(), lower)
    }
}

/// Whether two successive simultaneous pairs form parallel fifths: both a fifth
/// (modulo octaves) and both voices moving.
spec fn fifths_between(
    upper: Seq<NoteEventIr>,
    lower: Seq<NoteEventIr>,
    a: (usize, usize),
    b: (usize, usize),
) -> bool {
    &&& crate::analysis::interval_class(upper[a.0 as int].pitch, lower[a.1 as int].pitch) == Some(7int)
    &&& crate::analysis::interval_class(upper[b.0 as int].pitch, lower[b.1 as int].pitch) == Some(7int)
    &&& !same_midi(upper[a.0 as int].pitch, upper[b.0 as int].pitch)
    &&& !same_midi(lower[a.1 as int].pitch, lower[b.1 as int].pitch)
}

/// Whether the voices move in parallel fifths between some successive pairs.
spec fn parallel_fifths(upper: Seq<NoteEventIr>, lower: Seq<NoteEventIr>) -> bool {
    let ps = simultaneous(upper, lower);
    exists|k: int| 0 <= k && k + 1 < ps.len() && #[trigger] fifths_between(upper, lower, ps[k], ps[k + 1])
}

/// Whether the voices move between some successive pairs by a motion outside a list.
spec fn disallowed_motion(upper: Seq<NoteEventIr>, lower: Seq<NoteEventIr>, allowed: Seq<String>) -> bool {
    let ps = simultaneous(upper, lower);
    exists|k: int|
        0 <= k && k + 1 < ps.len() && #[trigger] motion_outside(
            crate::analysis::motion_of(
                upper[ps[k].0 as int],
                lower[ps[k].1 as int],
                upper[ps[k + 1].0 as int],
                lower[ps[k + 1].1 as int],
            ),
            allowed,
        )
}

/// Whether a motion was found and is not in the list.
spec fn motion_outside(motion: Option<Seq<char>>, allowed: Seq<String>) -> bool {
    match motion {
        Some(m) => !text_in(allowed, m),
        None => false,
    }
}

/// Whether an event starts later than the one before it (the first always does):
/// leaps are measured between such attacks.
spec fn new_attack(events: Seq<NoteEventIr>, i: int) -> bool {
    i == 0 || events[i].start_tick != events[i - 1].start_tick
}

/// Whether attacks `p` and `i` are successive: `p` before `i`, none between.
spec fn successive_attacks(events: Seq<NoteEventIr>, p: int, i: int) -> bool {
    &&& 0 <= p < i < events.len()
    &&& new_attack(events, p)
    &&& new_attack(events, i)
    &&& forall|q: int| p < q < i ==> !#[trigger] new_attack(events, q)
}

/// Whether the leap from event `p` to event `i` is wider than `max` semitones and
/// neither event is exempt from the rule.
spec fn leap_too_wide(events: Seq<NoteEventIr>, marks: Seq<(String, u32)>, p: int, i: int, max: int) -> bool {
    &&& events[p].pitch.midi_spec() matches Ok(a)
    &&& events[i].pitch.midi_spec() matches Ok(b)
    &&& !crate::track::overridden_at(marks, "max_melodic_leap"@, events[p].start_tick)
    &&& !crate::track::overridden_at(marks, "max_melodic_leap"@, events[i].start_tick)
    &&& (b - a > max || a - b > max)
}

/// Whether some successive attacks of a voice leap wider than allowed.
spec fn wide_leap(events: Seq<NoteEventIr>, marks: Seq<(String, u32)>, max: int) -> bool {
    exists|p: int, i: int| #[trigger] successive_attacks(events, p, i) && #[trigger] leap_too_wide(events, marks, p, i, max)
}

/// The absolute value of a number of semitones.
spec fn magnitude(semitones: int) -> int {
    if semitones < 0 {
        -semitones
    } else {
        semitones
    }
}

/// Whether events fail the figure that an ornament names (trill, mordent or turn).
spec fn ornament_misformed(kind: Seq<char>, events: Seq<NoteEventIr>) -> bool {
    (kind == "trill"@ && !crate::analysis::trill(events)) || (kind == "mordent"@
        && !crate::analysis::mordent(events)) || (kind == "turn"@ && !crate::analysis::turn(events))
}

/// The event before a non-chord-tone block, where its index is inside the track.
spec fn event_before(tone: PendingNonChordTone, events: Seq<NoteEventIr>) -> Option<NoteEventIr> {
    match tone.previous_event_index {
        Some(i) => if i < events.len() {
            Some(events[i as int])
        } else {
            None
        },
        None => None,
    }
}

/// The event after a non-chord-tone block, where there is one.
spec fn event_after(tone: PendingNonChordTone, events: Seq<NoteEventIr>) -> Option<NoteEventIr> {
    if tone.event_end < events.len() {
        Some(events[tone.event_end as int])
    } else {
        None
    }
}

/// Whether a passing or neighbor tone block fails its figure against the events round it.
spec fn tone_misformed(tone: PendingNonChordTone, events: Seq<NoteEventIr>) -> bool {
    &&& tone.event_start <= tone.event_end <= events.len()
    &&& {
        let tones = events.subrange(tone.event_start as int, tone.event_end as int);
        ||| (tone.kind@ == "passing_tone"@ && !crate::analysis::passing_tone(
            event_before(tone, events),
            tones,
            event_after(tone, events),
        ))
        ||| (tone.kind@ == "neighbor_tone"@ && !crate::analysis::neighbor_tone(
            event_before(tone, events),
            tones,
            event_after(tone, events),
        ))
    }
}

struct Compiler {
    catalog: TheoryCatalog,
    style: StyleContext,
    functions: Vec<usize>,
    active: Vec<bool>,
    variables: Vec<Vec<(String, Value)>>,
    diagnostics: Vec<Diagnostic>,
    override_rules: Vec<String>,
    score_override_rules: Vec<String>,
    override_traces: Vec<OverrideTrace>,
    section_labels: Vec<String>,
    markers: Vec<MarkerIr>,
    pending_non_chord_tones: Vec<PendingNonChordTone>,
    score_line: usize,
    score_column: usize,
}

/// Whether a list of texts holds an item.
spec fn text_in(list: Seq<String>, item: Seq<char>) -> bool {
    exists|i: int| 0 <= i < list.len() && (#[trigger] list[i])@ == item
}

fn text_list_contains(list: &Vec<String>, item: &str) -> (r: bool)
    ensures
        r == text_in(list@, item@),
{
    let mut i: usize = 0;
    while i < list.len()
        invariant
            i <= list@.len(),
            forall|k: int| 0 <= k < i ==> (#[trigger] list@[k])@ != item@,
        decreases list@.len() - i,
    {
        if str_eq(list[i].as_str(), item) {
            return true;
        }
        i = i + 1;
    }
    false
}

/// The words of a list joined by single spaces.
/// The first `n` words joined with single spaces.
pub open spec fn words_joined(list: Seq<String>, n: int) -> Seq<char>
    decreases n,
{
    if n <= 0 {
        Seq::empty()
    } else if n == 1 {
        list[0]@
    } else {
        words_joined(list, n - 1) + " "@ + list[n - 1]@
    }
}

fn join_words(list: &Vec<String>) -> (r: String)
    ensures
        r@ == words_joined(list@, list@.len() as int),
{
    let mut out = String::new();
    let mut i: usize = 0;
    while i < list.len()
        invariant
            i <= list@.len(),
            out@ == words_joined(list@, i as int),
        decreases list@.len() - i,
    {
        if i > 0 {
            append(&mut out, " ");
        }
        append(&mut out, list[i].as_str());
        i = i + 1;
        proof {
            reveal_strlit(" ");
        }
    }
    out
}

/// `a{b}c{d}e` for texts `b` and `d`.
fn message2(a: &str, b: &str, c: &str, d: &str, e: &str) -> (r: String)
    ensures
        r@ == a@ + b@ + c@ + d@ + e@,
{
    let first = concat3(a, b, c);
    let second = concat(d, e);
    concat(first.as_str(), second.as_str())
}

fn number_text(n: u64) -> (r: String) {
    u64_text(n)
}

fn option_lt(a: Option<u8>, b: Option<u8>) -> (r: bool)
    ensures
        r == match (a, b) {
            (None, Some(_)) => true,
            (Some(x), Some(y)) => x < y,
            _ => false,
        },
{
    match (a, b) {
        (None, Some(_)) => true,
        (Some(x), Some(y)) => x < y,
        _ => false,
    }
}

fn midi_option(p: Pitch) -> (r: Option<u8>)
    ensures
        match p.midi_spec() {
            Ok(m) => r == Some(m),
            Err(_) => r is None,
        },
{
    match p.midi_number() {
        Ok(m) => Some(m),
        Err(_) => None,
    }
}

fn same_option_u8(a: Option<u8>, b: Option<u8>) -> (r: bool)
    ensures
        r == (a == b),
{
    match (a, b) {
        (None, None) => true,
        (Some(x), Some(y)) => x == y,
        _ => false,
    }
}

fn span_line(span: Option<Span>, default: usize) -> (r: usize)
    ensures
        r == match span {
            Some(s) => s.line,
            None => default,
        },
{
    match span {
        Some(s) => s.line,
        None => default,
    }
}

fn span_column(span: Option<Span>, default: usize) -> (r: usize)
    ensures
        r == match span {
            Some(s) => s.column,
            None => default,
        },
{
    match span {
        Some(s) => s.column,
        None => default,
    }
}

fn is_voice(statement: &Stmt) -> (r: bool)
    ensures
        r == (statement is Voice),
{
    match statement {
        Stmt::Voice(_) => true,
        _ => false,
    }
}

fn has_voice(statements: &Vec<Stmt>) -> (r: bool)
    ensures
        r == exists|i: int| 0 <= i < statements@.len() && #[trigger] statements@[i] is Voice,
{
    let mut i: usize = 0;
    while i < statements.len()
        invariant
            i <= statements@.len(),
            forall|j: int| 0 <= j < i ==> !(#[trigger] statements@[j] is Voice),
        decreases statements@.len() - i,
    {
        if is_voice(&statements[i]) {
            return true;
        }
        i = i + 1;
    }
    false
}

/// The key signature that a `key` declaration names; `None` for an unknown tonic.
pub open spec fn declared_key(tonic: Seq<char>, mode: Seq<char>) -> Option<KeySignature> {
    let minor = crate::analysis::minor_mode(mode);
    match crate::analysis::fifths_of(trim_seq(tonic), minor) {
        Some(f) => Some(KeySignature { fifths: f as i8, is_minor: minor }),
        None => None,
    }
}

/// The tempo, meter, key, title and composer after some metadata declarations, each
/// later declaration replacing an earlier one; before any, a tempo of 120, no meter,
/// key or composer, and the score's name as title.
pub open spec fn metadata_after(meta: Seq<ScoreMeta>, name: Seq<char>) -> (
    u16,
    Option<Meter>,
    Option<KeySignature>,
    Seq<char>,
    Option<Seq<char>>,
)
    decreases meta.len(),
{
    if meta.len() == 0 {
        (120, None, None, name, None)
    } else {
        let r = metadata_after(meta.drop_last(), name);
        match meta.last() {
            ScoreMeta::Tempo(t) => (t.bpm, r.1, r.2, r.3, r.4),
            ScoreMeta::Meter(v) => (
                r.0,
                Some(Meter { numerator: v.numerator, denominator: v.denominator }),
                r.2,
                r.3,
                r.4,
            ),
            ScoreMeta::Key(v) => (r.0, r.1, declared_key(v.tonic@, v.mode@), r.3, r.4),
            ScoreMeta::Title(v) => (r.0, r.1, r.2, v.value@, r.4),
            ScoreMeta::Composer(v) => (r.0, r.1, r.2, r.3, Some(v.value@)),
        }
    }
}

/// The tempo, meter, key, title and composer that the score's metadata declares;
/// a later declaration wins, the tempo defaults to 120 and the title to the score's name.
pub fn score_metadata(program: &Program) -> (r: (
    u16,
    Option<Meter>,
    Option<KeySignature>,
    String,
    Option<String>,
))
    ensures
        (r.0, r.1, r.2, r.3@, match r.4 {
            Some(c) => Some(c@),
            None => None,
        }) == metadata_after(program.score.metadata@, program.score.name@),
{
    let mut tempo_bpm: u16 = 120;
    let mut meter: Option<Meter> = None;
    let mut key: Option<KeySignature> = None;
    let mut title = program.score.name.clone();
    let mut composer: Option<String> = None;
    let mut i: usize = 0;
    while i < program.score.metadata.len()
        invariant
            i <= program.score.metadata@.len(),
            (tempo_bpm, meter, key, title@, match composer {
                Some(c) => Some(c@),
                None => None,
            }) == metadata_after(program.score.metadata@.take(i as int), program.score.name@),
        decreases program.score.metadata@.len() - i,
    {
        assert(program.score.metadata@.take(i + 1).drop_last() =~= program.score.metadata@.take(i as int));
        assert(program.score.metadata@.take(i + 1).last() == program.score.metadata@[i as int]);
        match &program.score.metadata[i] {
            ScoreMeta::Tempo(tempo) => tempo_bpm = tempo.bpm,
            ScoreMeta::Meter(value) => {
                meter = Some(Meter { numerator: value.numerator, denominator: value.denominator });
            },
            ScoreMeta::Key(value) => key = key_signature(value.tonic.as_str(), value.mode.as_str()),
            ScoreMeta::Title(value) => title = value.value.clone(),
            ScoreMeta::Composer(value) => composer = Some(value.value.clone()),
        }
        i = i + 1;
    }
    assert(program.score.metadata@.take(i as int) =~= program.score.metadata@);
    (tempo_bpm, meter, key, title, composer)
}

impl Compiler {
    spec fn inv(self, program: &Program) -> bool {
        &&& self.active@.len() == self.functions@.len()
        &&& forall|i: int|
            0 <= i < self.functions@.len() ==> (#[trigger] self.functions@[i])
                < program.functions@.len()
        &&& self.variables@.len() >= 1
    }

    /// The compiler after a step that changed only its diagnostics.
    spec fn only_diagnostics(self, next: Compiler) -> bool {
        next == Compiler { diagnostics: next.diagnostics, ..self }
    }

    /// What an evaluation reports: nothing when it gives a value (`ok`), and otherwise at least
    /// one diagnostic after the earlier ones, the last of them an error.
    spec fn eval_reports(self, next: Compiler, ok: bool) -> bool {
        &&& self.only_diagnostics(next)
        &&& ok ==> next.diagnostics@ == self.diagnostics@
        &&& !ok ==> {
            &&& next.diagnostics@.len() > self.diagnostics@.len()
            &&& next.diagnostics@.take(self.diagnostics@.len() as int) == self.diagnostics@
            &&& next.diagnostics@.last().severity == Severity::Error
        }
    }

    /// The severity that the active style gives a rule; `Error` when it sets none.
    spec fn severity_of(self, rule: Seq<char>) -> RuleSeverity {
        match severity_lookup(self.style.rule_severity@, rule) {
            Some(s) => s,
            None => RuleSeverity::Error,
        }
    }

    /// A diagnostic that reports a style rule under a code, naming the active style,
    /// at the severity that the style gives the rule.
    spec fn reports(self, d: Diagnostic, rule: Seq<char>, code: Seq<char>) -> bool {
        &&& d.code@ == code
        &&& d.rule matches Some(r) && r@ == rule
        &&& d.style matches Some(n) && n@ == self.style.name@
        &&& d.severity == if self.severity_of(rule) == RuleSeverity::Warning {
            Severity::Warning
        } else {
            Severity::Error
        }
    }

    /// The step reported a style rule: one diagnostic more, at the end, unless the
    /// style turns the rule off; nothing else changed.
    spec fn reported(self, next: Compiler, rule: Seq<char>, code: Seq<char>) -> bool {
        &&& self.only_diagnostics(next)
        &&& if self.severity_of(rule) == RuleSeverity::Off {
            next.diagnostics@ == self.diagnostics@
        } else {
            &&& next.diagnostics@.len() == self.diagnostics@.len() + 1
            &&& next.diagnostics@.drop_last() == self.diagnostics@
            &&& self.reports(next.diagnostics@.last(), rule, code)
        }
    }

    /// 1 where a violated rule reports (its severity is not `off`), else 0.
    spec fn fires(self, rule: Seq<char>, violated: bool) -> nat {
        if violated && self.severity_of(rule) != RuleSeverity::Off {
            1
        } else {
            0
        }
    }

    /// The rule, as a one-item list with its code, where it fires; else nothing.
    spec fn fired(self, rule: Seq<char>, code: Seq<char>, violated: bool) -> Seq<(Seq<char>, Seq<char>)> {
        if self.fires(rule, violated) == 1 {
            seq![(rule, code)]
        } else {
            Seq::empty()
        }
    }

    /// The counterpoint rules that a pair of tracks fires, in the order they are checked.
    spec fn pair_rules(self, upper: TrackIr, lower: TrackIr) -> Seq<(Seq<char>, Seq<char>)> {
        self.fired(
            "voice_crossing"@,
            "ML_STYLE_VOICE_CROSSING"@,
            !self.suppresses("voice_crossing"@) && voices_cross(upper.events@, lower.events@),
        ) + self.fired(
            "parallel_fifths"@,
            "ML_STYLE_PARALLEL_FIFTHS"@,
            !self.suppresses("parallel_fifths"@) && parallel_fifths(upper.events@, lower.events@),
        ) + self.fired(
            "contrapuntal_motion"@,
            "ML_STYLE_CONTRAPUNTAL_MOTION"@,
            self.style.contrapuntal_motion@.len() > 0 && !self.suppresses("contrapuntal_motion"@)
                && disallowed_motion(upper.events@, lower.events@, self.style.contrapuntal_motion@),
        )
    }

    /// The rules fired by the pairs (u, u + 1), ..., (u, l - 1).
    spec fn row_rules(self, tracks: Seq<TrackIr>, u: int, l: int) -> Seq<(Seq<char>, Seq<char>)>
        decreases l - u,
    {
        if l <= u + 1 {
            Seq::empty()
        } else {
            self.row_rules(tracks, u, l - 1) + self.pair_rules(tracks[u], tracks[l - 1])
        }
    }

    /// The rules fired by every pair of tracks whose upper track comes before `u`.
    spec fn rows_rules(self, tracks: Seq<TrackIr>, u: int) -> Seq<(Seq<char>, Seq<char>)>
        decreases u,
    {
        if u <= 0 {
            Seq::empty()
        } else {
            self.rows_rules(tracks, u - 1) + self.row_rules(tracks, u - 1, tracks.len() as int)
        }
    }

    /// `ds` report the listed rules, one each, in order.
    spec fn reports_all(self, ds: Seq<Diagnostic>, rules: Seq<(Seq<char>, Seq<char>)>) -> bool {
        &&& ds.len() == rules.len()
        &&& forall|k: int| 0 <= k < ds.len() ==> self.reports(#[trigger] ds[k], rules[k].0, rules[k].1)
    }

    /// The tempo lies outside the style's tempo range, and no override allows it.
    spec fn tempo_violated(self, tempo_bpm: u16) -> bool {
        self.style.tempo_range matches Some((min, max)) && (tempo_bpm < min || tempo_bpm > max)
            && !self.overrides("tempo_range"@)
    }

    /// The meter differs from the style's meter, and no override allows it.
    spec fn meter_violated(self, meter: Option<Meter>) -> bool {
        self.style.meter matches Some(expected) && meter matches Some(actual) && expected != actual
            && !self.overrides("meter"@)
    }

    /// The meter is missing from the style's meter catalog, and no override allows it.
    spec fn meter_catalog_violated(self, meter: Option<Meter>) -> bool {
        meter matches Some(actual) && self.style.meter_catalog@.len() > 0 && !self.overrides(
            "meter_catalog"@,
        ) && !(exists|i: int|
            0 <= i < self.style.meter_catalog@.len() && (#[trigger] self.style.meter_catalog@[i])@
                == crate::vocab::meter_text(actual) && crate::theory::has_entry(
                self.catalog.entries_spec(TheoryDomain::Meters),
                self.style.meter_catalog@[i]@,
            ))
    }

    /// Whether an `override` block being compiled allows a rule.
    spec fn overrides(self, rule: Seq<char>) -> bool {
        text_in(self.override_rules@, rule)
    }

    /// The chord's pitch classes are not among the style's chord vocabulary.
    spec fn chord_vocab_violated(self, ps: Seq<Pitch>) -> bool {
        self.style.chord_vocab@.len() > 0 && !self.overrides("chord_vocab"@) && !chord_in_vocab(
            self.style.chord_vocab@,
            pitch_classes(ps),
        )
    }

    /// The chord fits none of the style's chord qualities.
    spec fn chord_quality_violated(self, ps: Seq<Pitch>) -> bool {
        self.style.chord_quality_vocab@.len() > 0 && !self.overrides("chord_quality_vocab"@) && !(exists|i: int|
            0 <= i < self.style.chord_quality_vocab@.len() && chord_fits(
                self.catalog,
                TheoryDomain::ChordQualities,
                ps,
                (#[trigger] self.style.chord_quality_vocab@[i])@,
            ))
    }

    /// The chord fits none of the style's set classes.
    spec fn set_class_violated(self, ps: Seq<Pitch>) -> bool {
        self.style.set_class_vocab@.len() > 0 && !self.overrides("set_class_vocab"@) && !(exists|i: int|
            0 <= i < self.style.set_class_vocab@.len() && chord_fits(
                self.catalog,
                TheoryDomain::SetClasses,
                ps,
                (#[trigger] self.style.set_class_vocab@[i])@,
            ))
    }

    /// The duration is not among the style's rhythm vocabulary.
    spec fn rhythm_violated(self, d: Duration) -> bool {
        self.style.rhythm_vocab@.len() > 0 && !self.overrides("rhythm_vocab"@) && !(exists|i: int|
            0 <= i < self.style.rhythm_vocab@.len() && (#[trigger] self.style.rhythm_vocab@[i]).numerator_spec()
                == d.numerator_spec() && self.style.rhythm_vocab@[i].denominator_spec()
                == d.denominator_spec())
    }

    /// The rules that a chord of `ps` lasting `d` fires, in the order they are checked.
    spec fn chord_rules(self, ps: Seq<Pitch>, d: Duration) -> Seq<(Seq<char>, Seq<char>)> {
        self.fired("chord_vocab"@, "ML_STYLE_CHORD_VOCAB"@, self.chord_vocab_violated(ps)) + self.fired(
            "chord_quality_vocab"@,
            "ML_STYLE_CHORD_QUALITY_VOCAB"@,
            self.chord_quality_violated(ps),
        ) + self.fired("set_class_vocab"@, "ML_STYLE_SET_CLASS_VOCAB"@, self.set_class_violated(ps))
            + self.fired("rhythm_vocab"@, "ML_STYLE_RHYTHM_VOCAB"@, self.rhythm_violated(d))
    }

    /// Whether an `override` block, or one round the whole score, allows a rule.
    spec fn suppresses(self, rule: Seq<char>) -> bool {
        text_in(self.override_rules@, rule) || text_in(self.score_override_rules@, rule)
    }

    /// The parts that every compile step keeps.
    spec fn frame(self, next: Compiler, program: &Program) -> bool {
        &&& next.inv(program)
        &&& next.functions == self.functions
        &&& next.active@ == self.active@
        &&& next.variables@.len() == self.variables@.len()
        &&& next.markers@.len() >= self.markers@.len()
        &&& forall|k: int| 0 <= k < self.markers@.len() ==> next.markers@[k] == #[trigger] self.markers@[k]
        &&& next.override_traces@.len() >= self.override_traces@.len()
        &&& forall|k: int|
            0 <= k < self.override_traces@.len() ==> next.override_traces@[k] == #[trigger] self.override_traces@[k]
    }

    fn new(program: &Program) -> (r: Compiler)
        ensures
            r.inv(program),
    {
        let catalog = theory_catalog();
        let mut diagnostics: Vec<Diagnostic> = Vec::new();
        let style = match &program.score.style {
            Some(active_style) => {
                let mut found: Option<usize> = None;
                let mut i: usize = 0;
                while i < program.styles.len()
                    decreases program.styles@.len() - i,
                {
                    if found.is_none() && str_eq(program.styles[i].name.as_str(), active_style.as_str()) {
                        found = Some(i);
                    }
                    i = i + 1;
                }
                match found {
                    Some(i) if i < program.styles.len() => {
                        let (style, ds) = style_from_program(&catalog, program, &program.styles[i]);
                        diagnostics = ds;
                        style
                    },
                    _ => match StyleContext::built_in(active_style.as_str()) {
                        Some(style) => style,
                        None => {
                            let message = concat3("unknown style `", active_style.as_str(), "`");
                            diagnostics.push(
                                Diagnostic::error(
                                    "ML_STYLE_UNKNOWN_NAME",
                                    message.as_str(),
                                    program.score.line,
                                    program.score.column,
                                ),
                            );
                            StyleContext::core_style()
                        },
                    },
                }
            },
            None => match &program.style {
                Some(style) => {
                    let (style, ds) = style_from_program(&catalog, program, style);
                    diagnostics = ds;
                    style
                },
                None => StyleContext::core_style(),
            },
        };
        let mut functions: Vec<usize> = Vec::new();
        let mut active: Vec<bool> = Vec::new();
        let mut i: usize = 0;
        while i < program.functions.len()
            invariant
                i <= program.functions@.len(),
                active@.len() == functions@.len(),
                forall|k: int|
                    0 <= k < functions@.len() ==> (#[trigger] functions@[k])
                        < program.functions@.len(),
            decreases program.functions@.len() - i,
        {
            let function = &program.functions[i];
            let mut duplicate = false;
            let mut j: usize = 0;
            while j < functions.len()
                invariant
                    j <= functions@.len(),
                    forall|k: int|
                        0 <= k < functions@.len() ==> (#[trigger] functions@[k])
                            < program.functions@.len(),
                decreases functions@.len() - j,
            {
                let other = functions[j];
                if str_eq(program.functions[other].name.as_str(), function.name.as_str()) {
                    duplicate = true;
                }
                j = j + 1;
            }
            if duplicate {
                let message = concat3("duplicate function `", function.name.as_str(), "`");
                diagnostics.push(
                    Diagnostic::error(
                        "ML_RESOLVE_DUPLICATE_NAME",
                        message.as_str(),
                        function.line,
                        function.column,
                    ).with_span(function.span),
                );
            } else {
                functions.push(i);
                active.push(false);
            }
            i = i + 1;
        }
        let mut scopes: Vec<Vec<(String, Value)>> = Vec::new();
        scopes.push(Vec::new());
        Compiler {
            catalog,
            style,
            functions,
            active,
            variables: scopes,
            diagnostics,
            override_rules: Vec::new(),
            score_override_rules: Vec::new(),
            override_traces: Vec::new(),
            section_labels: Vec::new(),
            markers: Vec::new(),
            pending_non_chord_tones: Vec::new(),
            score_line: program.score.line,
            score_column: program.score.column,
        }
    }

    fn has_override(&self, rule: &str) -> (r: bool)
        ensures
            r == self.overrides(rule@),
    {
        text_list_contains(&self.override_rules, rule)
    }

    fn has_score_override(&self, rule: &str) -> (r: bool)
        ensures
            r == text_in(self.score_override_rules@, rule@),
    {
        text_list_contains(&self.score_override_rules, rule)
    }

    fn suppressed(&self, rule: &str) -> (r: bool)
        ensures
            r == self.suppresses(rule@),
    {
        self.has_override(rule) || self.has_score_override(rule)
    }

    fn is_known_rule(&self, rule: &str) -> (r: bool)
        ensures
            r == (built_in_rule(rule@) || exists|i: int|
                0 <= i < self.style.custom_rules@.len() && (#[trigger] self.style.custom_rules@[i]).id@
                    == rule@),
    {
        if known_rule(rule) {
            return true;
        }
        let mut i: usize = 0;
        while i < self.style.custom_rules.len()
            invariant
                i <= self.style.custom_rules@.len(),
                !built_in_rule(rule@),
                forall|j: int| 0 <= j < i ==> (#[trigger] self.style.custom_rules@[j]).id@ != rule@,
            decreases self.style.custom_rules@.len() - i,
        {
            if str_eq(self.style.custom_rules[i].id.as_str(), rule) {
                return true;
            }
            i = i + 1;
        }
        false
    }

    /// Reports a style rule at the severity that the active style gives it.
    fn push_style_diagnostic_with_span(
        &mut self,
        rule: &str,
        code: &str,
        message: &str,
        line: usize,
        column: usize,
        span: Option<Span>,
    )
        ensures
            old(self).reported(*final(self), rule@, code@),
    {
        match self.style.rule_severity(rule) {
            RuleSeverity::Off => {},
            RuleSeverity::Error => {
                let mut d = Diagnostic::error(code, message, line, column).with_rule(rule).with_style(
                    self.style.name.as_str(),
                );
                match span {
                    Some(s) => d = d.with_span(s),
                    None => {},
                }
                assert(old(self).reports(d, rule@, code@));
                self.diagnostics.push(d);
                assert(self.diagnostics@.drop_last() =~= old(self).diagnostics@);
            },
            RuleSeverity::Warning => {
                let mut d = Diagnostic::warning(code, message, line, column).with_rule(
                    rule,
                ).with_style(self.style.name.as_str());
                match span {
                    Some(s) => d = d.with_span(s),
                    None => {},
                }
                assert(old(self).reports(d, rule@, code@));
                self.diagnostics.push(d);
                assert(self.diagnostics@.drop_last() =~= old(self).diagnostics@);
            },
        }
    }

    fn push_style_diagnostic(
        &mut self,
        rule: &str,
        code: &str,
        message: &str,
        line: usize,
        column: usize,
    )
        ensures
            old(self).reported(*final(self), rule@, code@),
    {
        self.push_style_diagnostic_with_span(rule, code, message, line, column, None);
    }

    fn push_error(&mut self, d: Diagnostic)
        ensures
            old(self).only_diagnostics(*final(self)),
            final(self).diagnostics@ == old(self).diagnostics@.push(d),
    {
        self.diagnostics.push(d);
    }

    /// Reports a word that lies outside a non-empty style vocabulary.
    fn check_vocab_word(
        &mut self,
        vocab_is_empty: bool,
        allowed: bool,
        rule: &str,
        code: &str,
        what: &str,
        word: &str,
        line: usize,
        column: usize,
    )
        ensures
            old(self).only_diagnostics(*final(self)),
            if !vocab_is_empty && !old(self).suppresses(rule@) && !allowed {
                old(self).reported(*final(self), rule@, code@)
            } else {
                *final(self) == *old(self)
            },
    {
        if vocab_is_empty || self.suppressed(rule) {
            return;
        }
        if !allowed {
            let message = message2(what, " `", word, "` is outside active style ", "vocabulary");
            self.push_style_diagnostic(rule, code, message.as_str(), line, column);
        }
    }

    fn check_dynamic_vocab(&mut self, dynamic: &DynamicStmt)
        ensures
            old(self).only_diagnostics(*final(self)),
            if old(self).style.dynamic_vocab@.len() > 0 && !old(self).suppresses("dynamic_vocab"@)
                && !text_in(old(self).style.dynamic_vocab@, dynamic.mark@) {
                old(self).reported(*final(self), "dynamic_vocab"@, "ML_STYLE_DYNAMIC_VOCAB"@)
            } else {
                *final(self) == *old(self)
            },
    {
        if self.style.dynamic_vocab.len() == 0 || self.suppressed("dynamic_vocab") {
            return;
        }
        if !text_list_contains(&self.style.dynamic_vocab, dynamic.mark.as_str()) {
            let message = concat3(
                "dynamic `",
                dynamic.mark.as_str(),
                "` is outside active style dynamic vocabulary",
            );
            self.push_style_diagnostic(
                "dynamic_vocab",
                "ML_STYLE_DYNAMIC_VOCAB",
                message.as_str(),
                dynamic.line,
                dynamic.column,
            );
        }
    }

    fn check_articulation_vocab(&mut self, articulation: &ArticulationStmt)
        ensures
            old(self).only_diagnostics(*final(self)),
            if old(self).style.articulation_vocab@.len() > 0 && !old(self).suppresses("articulation_vocab"@)
                && !text_in(old(self).style.articulation_vocab@, articulation.mark@) {
                old(self).reported(*final(self), "articulation_vocab"@, "ML_STYLE_ARTICULATION_VOCAB"@)
            } else {
                *final(self) == *old(self)
            },
    {
        if self.style.articulation_vocab.len() == 0 || self.suppressed("articulation_vocab") {
            return;
        }
        if !text_list_contains(&self.style.articulation_vocab, articulation.mark.as_str()) {
            let message = concat3(
                "articulation `",
                articulation.mark.as_str(),
                "` is outside active style articulation vocabulary",
            );
            self.push_style_diagnostic(
                "articulation_vocab",
                "ML_STYLE_ARTICULATION_VOCAB",
                message.as_str(),
                articulation.line,
                articulation.column,
            );
        }
    }

    fn check_ornament(&mut self, kind: &str, line: usize, column: usize)
        ensures
            old(self).only_diagnostics(*final(self)),
            if old(self).style.ornaments@.len() > 0 && !old(self).suppresses("ornament"@)
                && !text_in(old(self).style.ornaments@, kind@) {
                old(self).reported(*final(self), "ornament"@, "ML_STYLE_ORNAMENT"@)
            } else {
                *final(self) == *old(self)
            },
    {
        let allowed = text_list_contains(&self.style.ornaments, kind);
        let empty = self.style.ornaments.len() == 0;
        self.check_vocab_word(empty, allowed, "ornament", "ML_STYLE_ORNAMENT", "ornament", kind, line, column);
    }

    fn check_non_chord_tone(&mut self, kind: &str, line: usize, column: usize)
        ensures
            old(self).only_diagnostics(*final(self)),
            if old(self).style.non_chord_tones@.len() > 0 && !old(self).suppresses("non_chord_tone"@)
                && !text_in(old(self).style.non_chord_tones@, kind@) {
                old(self).reported(*final(self), "non_chord_tone"@, "ML_STYLE_NON_CHORD_TONE"@)
            } else {
                *final(self) == *old(self)
            },
    {
        let allowed = text_list_contains(&self.style.non_chord_tones, kind);
        let empty = self.style.non_chord_tones.len() == 0;
        self.check_vocab_word(
            empty,
            allowed,
            "non_chord_tone",
            "ML_STYLE_NON_CHORD_TONE",
            "non-chord tone",
            kind,
            line,
            column,
        );
    }

    fn check_tuning_system(&mut self, kind: &str, line: usize, column: usize)
        ensures
            old(self).only_diagnostics(*final(self)),
            if old(self).style.tuning_systems@.len() > 0 && !old(self).suppresses("tuning_system"@)
                && !text_in(old(self).style.tuning_systems@, kind@) {
                old(self).reported(*final(self), "tuning_system"@, "ML_STYLE_TUNING_SYSTEM"@)
            } else {
                *final(self) == *old(self)
            },
    {
        let allowed = text_list_contains(&self.style.tuning_systems, kind);
        let empty = self.style.tuning_systems.len() == 0;
        self.check_vocab_word(
            empty,
            allowed,
            "tuning_system",
            "ML_STYLE_TUNING_SYSTEM",
            "tuning system",
            kind,
            line,
            column,
        );
    }

    fn check_world_tradition(&mut self, kind: &str, line: usize, column: usize)
        ensures
            old(self).only_diagnostics(*final(self)),
            if old(self).style.world_traditions@.len() > 0 && !old(self).suppresses("world_tradition"@)
                && !text_in(old(self).style.world_traditions@, kind@) {
                old(self).reported(*final(self), "world_tradition"@, "ML_STYLE_WORLD_TRADITION"@)
            } else {
                *final(self) == *old(self)
            },
    {
        let allowed = text_list_contains(&self.style.world_traditions, kind);
        let empty = self.style.world_traditions.len() == 0;
        self.check_vocab_word(
            empty,
            allowed,
            "world_tradition",
            "ML_STYLE_WORLD_TRADITION",
            "world tradition",
            kind,
            line,
            column,
        );
    }

    fn check_historical_era(&mut self, kind: &str, line: usize, column: usize)
        ensures
            old(self).only_diagnostics(*final(self)),
            if old(self).style.historical_eras@.len() > 0 && !old(self).suppresses("historical_era"@)
                && !text_in(old(self).style.historical_eras@, kind@) {
                old(self).reported(*final(self), "historical_era"@, "ML_STYLE_HISTORICAL_ERA"@)
            } else {
                *final(self) == *old(self)
            },
    {
        let allowed = text_list_contains(&self.style.historical_eras, kind);
        let empty = self.style.historical_eras.len() == 0;
        self.check_vocab_word(
            empty,
            allowed,
            "historical_era",
            "ML_STYLE_HISTORICAL_ERA",
            "historical era",
            kind,
            line,
            column,
        );
    }

    fn check_harmonic_function(&mut self, kind: &str, line: usize, column: usize)
        ensures
            old(self).only_diagnostics(*final(self)),
            if old(self).style.harmonic_functions@.len() > 0 && !old(self).suppresses("harmonic_function"@)
                && !text_in(old(self).style.harmonic_functions@, kind@) {
                old(self).reported(*final(self), "harmonic_function"@, "ML_STYLE_HARMONIC_FUNCTION"@)
            } else {
                *final(self) == *old(self)
            },
    {
        let allowed = text_list_contains(&self.style.harmonic_functions, kind);
        let empty = self.style.harmonic_functions.len() == 0;
        self.check_vocab_word(
            empty,
            allowed,
            "harmonic_function",
            "ML_STYLE_HARMONIC_FUNCTION",
            "harmonic function",
            kind,
            line,
            column,
        );
    }

    fn check_ornament_pattern(&mut self, kind: &str, events: &[NoteEventIr], line: usize, column: usize)
        ensures
            old(self).only_diagnostics(*final(self)),
            if old(self).style.ornaments@.len() > 0 && !old(self).suppresses("ornament"@) && text_in(old(self).style.ornaments@, kind@) && ornament_misformed(kind@, events@) {
                old(self).reported(*final(self), "ornament"@, "ML_STYLE_ORNAMENT"@)
            } else {
                *final(self) == *old(self)
            },
    {
        if self.style.ornaments.len() == 0 || self.suppressed("ornament") || !text_list_contains(
            &self.style.ornaments,
            kind,
        ) {
            return;
        }
        if str_eq(kind, "trill") && !events_form_trill(events) {
            self.push_style_diagnostic(
                "ornament",
                "ML_STYLE_ORNAMENT",
                "trill ornament must alternate rapidly between two pitch classes",
                line,
                column,
            );
        } else if str_eq(kind, "mordent") && !events_form_mordent(events) {
            self.push_style_diagnostic(
                "ornament",
                "ML_STYLE_ORNAMENT",
                "mordent ornament must move from a main pitch to a neighbor and back",
                line,
                column,
            );
        } else if str_eq(kind, "turn") && !events_form_turn(events) {
            self.push_style_diagnostic(
                "ornament",
                "ML_STYLE_ORNAMENT",
                "turn ornament must outline upper neighbor, main pitch, lower neighbor, and main pitch",
                line,
                column,
            );
        }
    }

    fn check_pending_non_chord_tones(&mut self, track: &TrackBuilder, pending_start: usize)
        ensures
            *final(self) == (Compiler {
                diagnostics: final(self).diagnostics,
                pending_non_chord_tones: final(self).pending_non_chord_tones,
                ..*old(self)
            }),
            final(self).diagnostics@.len() >= old(self).diagnostics@.len(),
            final(self).diagnostics@.take(old(self).diagnostics@.len() as int) == old(self).diagnostics@,
            forall|k: int|
                old(self).diagnostics@.len() <= k < final(self).diagnostics@.len() ==> old(self).reports(
                    #[trigger] final(self).diagnostics@[k],
                    "non_chord_tone"@,
                    "ML_STYLE_NON_CHORD_TONE"@,
                ),
            old(self).style.non_chord_tones@.len() > 0 && !old(self).suppresses("non_chord_tone"@)
                && old(self).severity_of("non_chord_tone"@) != RuleSeverity::Off && pending_start
                <= old(self).pending_non_chord_tones@.len() && (exists|k: int|
                pending_start <= k < old(self).pending_non_chord_tones@.len() && text_in(
                    old(self).style.non_chord_tones@,
                    (#[trigger] old(self).pending_non_chord_tones@[k]).kind@,
                ) && tone_misformed(old(self).pending_non_chord_tones@[k], track.events_spec()))
                ==> final(self).diagnostics@.len() > old(self).diagnostics@.len(),
            !(exists|k: int|
                pending_start <= k < old(self).pending_non_chord_tones@.len() && tone_misformed(
                    #[trigger] old(self).pending_non_chord_tones@[k],
                    track.events_spec(),
                )) ==> final(self).diagnostics@ == old(self).diagnostics@,
    {
        if pending_start > self.pending_non_chord_tones.len() {
            return;
        }
        let pending = self.pending_non_chord_tones.split_off(pending_start);
        let events = track.events();
        let ghost old_d = old(self).diagnostics@;
        let ghost es = track.events_spec();
        let ghost active = old(self).style.non_chord_tones@.len() > 0 && !old(self).suppresses(
            "non_chord_tone"@,
        ) && old(self).severity_of("non_chord_tone"@) != RuleSeverity::Off;
        assert(pending@ =~= old(self).pending_non_chord_tones@.subrange(
            pending_start as int,
            old(self).pending_non_chord_tones@.len() as int,
        ));
        let mut i: usize = 0;
        while i < pending.len()
            invariant
                *self == (Compiler {
                    diagnostics: self.diagnostics,
                    pending_non_chord_tones: self.pending_non_chord_tones,
                    ..*old(self)
                }),
                i <= pending@.len(),
                events@ == es,
                pending_start <= old(self).pending_non_chord_tones@.len(),
                pending@ == old(self).pending_non_chord_tones@.subrange(
                    pending_start as int,
                    old(self).pending_non_chord_tones@.len() as int,
                ),
                active == (old(self).style.non_chord_tones@.len() > 0 && !old(self).suppresses(
                    "non_chord_tone"@,
                ) && old(self).severity_of("non_chord_tone"@) != RuleSeverity::Off),
                old_d == old(self).diagnostics@,
                self.diagnostics@.len() >= old_d.len(),
                self.diagnostics@.take(old_d.len() as int) == old_d,
                forall|k: int|
                    old_d.len() <= k < self.diagnostics@.len() ==> old(self).reports(
                        #[trigger] self.diagnostics@[k],
                        "non_chord_tone"@,
                        "ML_STYLE_NON_CHORD_TONE"@,
                    ),
                active && (exists|j: int|
                    0 <= j < i && text_in(
                        old(self).style.non_chord_tones@,
                        (#[trigger] pending@[j]).kind@,
                    ) && tone_misformed(pending@[j], es)) ==> self.diagnostics@.len() > old_d.len(),
                !(exists|j: int| 0 <= j < i && tone_misformed(#[trigger] pending@[j], es))
                    ==> self.diagnostics@ == old_d,
            decreases pending@.len() - i,
        {
            let tone = &pending[i];
            let ghost pre = self.diagnostics@;
            let ghost pre_self = *self;
            proof {
                assert forall|j: int| 0 <= j < i + 1 && tone_misformed(#[trigger] pending@[j], es) implies (j
                    < i && tone_misformed(pending@[j], es)) || j == i by {}
            }
            i = i + 1;
            if self.style.non_chord_tones.len() == 0 || self.suppressed("non_chord_tone")
                || !text_list_contains(&self.style.non_chord_tones, tone.kind.as_str()) {
                proof {
                    if active && (exists|j: int|
                        0 <= j < i && text_in(
                            old(self).style.non_chord_tones@,
                            (#[trigger] pending@[j]).kind@,
                        ) && tone_misformed(pending@[j], es)) {
                        let j = choose|j: int|
                            0 <= j < i && text_in(
                                old(self).style.non_chord_tones@,
                                (#[trigger] pending@[j]).kind@,
                            ) && tone_misformed(pending@[j], es);
                        assert(j != i - 1);
                    }
                }
                continue;
            }
            let previous = match tone.previous_event_index {
                Some(index) => if index < events.len() {
                    Some(&events[index])
                } else {
                    None
                },
                None => None,
            };
            if !(tone.event_start <= tone.event_end && tone.event_end <= events.len()) {
                continue;
            }
            let tones = vstd::slice::slice_subrange(events, tone.event_start, tone.event_end);
            let next = if tone.event_end < events.len() {
                Some(&events[tone.event_end])
            } else {
                None
            };
            if str_eq(tone.kind.as_str(), "passing_tone") && !events_form_passing_tone(
                previous,
                tones,
                next,
            ) {
                self.push_style_diagnostic(
                    "non_chord_tone",
                    "ML_STYLE_NON_CHORD_TONE",
                    "passing tone must connect surrounding tones by stepwise motion in one direction",
                    tone.line,
                    tone.column,
                );
                proof {
                    assert forall|k: int|
                        old_d.len() <= k < self.diagnostics@.len() implies old(self).reports(
                        #[trigger] self.diagnostics@[k],
                        "non_chord_tone"@,
                        "ML_STYLE_NON_CHORD_TONE"@,
                    ) by {
                        if k < pre.len() {
                            assert(self.diagnostics@[k] == pre[k]);
                        }
                    }
                    assert(self.diagnostics@.take(old_d.len() as int) =~= old_d) by {
                        assert(pre.take(old_d.len() as int) == old_d);
                        assert forall|k: int| 0 <= k < old_d.len() implies self.diagnostics@[k] == pre[k] by {}
                    }
                }
            } else if str_eq(tone.kind.as_str(), "neighbor_tone") && !events_form_neighbor_tone(
                previous,
                tones,
                next,
            ) {
                self.push_style_diagnostic(
                    "non_chord_tone",
                    "ML_STYLE_NON_CHORD_TONE",
                    "neighbor tone must step away from and return to the same surrounding pitch",
                    tone.line,
                    tone.column,
                );
                proof {
                    assert forall|k: int|
                        old_d.len() <= k < self.diagnostics@.len() implies old(self).reports(
                        #[trigger] self.diagnostics@[k],
                        "non_chord_tone"@,
                        "ML_STYLE_NON_CHORD_TONE"@,
                    ) by {
                        if k < pre.len() {
                            assert(self.diagnostics@[k] == pre[k]);
                        }
                    }
                    assert(self.diagnostics@.take(old_d.len() as int) =~= old_d) by {
                        assert(pre.take(old_d.len() as int) == old_d);
                        assert forall|k: int| 0 <= k < old_d.len() implies self.diagnostics@[k] == pre[k] by {}
                    }
                }
            }
        }
        proof {
            if exists|k: int|
                pending_start <= k < old(self).pending_non_chord_tones@.len() && text_in(
                    old(self).style.non_chord_tones@,
                    (#[trigger] old(self).pending_non_chord_tones@[k]).kind@,
                ) && tone_misformed(old(self).pending_non_chord_tones@[k], es) {
                let k = choose|k: int|
                    pending_start <= k < old(self).pending_non_chord_tones@.len() && text_in(
                        old(self).style.non_chord_tones@,
                        (#[trigger] old(self).pending_non_chord_tones@[k]).kind@,
                    ) && tone_misformed(old(self).pending_non_chord_tones@[k], es);
                assert(pending@[k - pending_start] == old(self).pending_non_chord_tones@[k]);
            }
            if exists|k: int|
                pending_start <= k < old(self).pending_non_chord_tones@.len() && tone_misformed(
                    #[trigger] old(self).pending_non_chord_tones@[k],
                    es,
                ) {
                let k = choose|k: int|
                    pending_start <= k < old(self).pending_non_chord_tones@.len() && tone_misformed(
                        #[trigger] old(self).pending_non_chord_tones@[k],
                        es,
                    );
                assert(pending@[k - pending_start] == old(self).pending_non_chord_tones@[k]);
            }
            assert(self.diagnostics@.take(old_d.len() as int) == old_d);
        }
    }

    /// Reports the first melodic leap, between successive attacks, wider than the
    /// style allows.
    fn check_melodic_leap(&mut self, track: &TrackBuilder, line: usize, column: usize)
        ensures
            old(self).only_diagnostics(*final(self)),
            if old(self).style.max_melodic_leap matches Some(m) && wide_leap(track.events_spec(), track.marks_spec(), magnitude(m.semitones_spec())) {
                old(self).reported(*final(self), "max_melodic_leap"@, "ML_STYLE_MAX_MELODIC_LEAP"@)
            } else {
                *final(self) == *old(self)
            },
    {
        let max_leap = match self.style.max_melodic_leap {
            Some(m) => m,
            None => return,
        };
        let max_semitones: i32 = max_leap.semitones() as i32;
        let max_abs: i32 = if max_semitones < 0 {
            -max_semitones
        } else {
            max_semitones
        };
        let events = track.events();
        let ghost es = events@;
        let ghost marks = track.marks_spec();
        let ghost max = magnitude(max_leap.semitones_spec());
        assert(max == max_abs);
        let mut last_kept: Option<usize> = None;
        let mut i: usize = 0;
        while i < events.len()
            invariant
                *self == *old(self),
                old(self).style.max_melodic_leap == Some(max_leap),
                max == magnitude(max_leap.semitones_spec()),
                max == max_abs,
                es == events@,
                events@ == track.events_spec(),
                marks == track.marks_spec(),
                i <= events@.len(),
                last_kept matches Some(p) ==> p < i && new_attack(es, p as int) && forall|q: int|
                    p < q < i ==> !#[trigger] new_attack(es, q),
                last_kept is None ==> i == 0,
                forall|p: int, k: int|
                    #[trigger] successive_attacks(es, p, k) && k < i ==> !#[trigger] leap_too_wide(es, marks, p, k, max),
            decreases events@.len() - i,
        {
            if i > 0 && events[i].start_tick == events[i - 1].start_tick {
                assert(!new_attack(es, i as int));
                i = i + 1;
                continue;
            }
            assert(new_attack(es, i as int));
            proof {
                assert forall|p: int, k: int| #[trigger] successive_attacks(es, p, k) && k == i implies last_kept == Some(p as usize) by {
                    match last_kept {
                        Some(lp) => {
                            if (lp as int) < p {
                                assert(!new_attack(es, p));
                            } else if p < lp as int {
                                assert(!new_attack(es, lp as int));
                            }
                        },
                        None => {},
                    }
                }
            }
            match last_kept {
                Some(p) => {
                    let first = &events[p];
                    let second = &events[i];
                    match (first.pitch.midi_number(), second.pitch.midi_number()) {
                        (Ok(a), Ok(b)) => {
                            if !track.is_event_overridden("max_melodic_leap", first.start_tick)
                                && !track.is_event_overridden(
                                "max_melodic_leap",
                                second.start_tick,
                            ) {
                                let d: i32 = b as i32 - a as i32;
                                let leap: i32 = if d < 0 {
                                    -d
                                } else {
                                    d
                                };
                                if leap > max_abs {
                                    assert(successive_attacks(es, p as int, i as int));
                                    assert(leap_too_wide(es, marks, p as int, i as int, max));
                                    let m = message2(
                                        "melodic leap of ",
                                        number_text(leap as u64).as_str(),
                                        " semitones exceeds maximum ",
                                        number_text(max_abs as u64).as_str(),
                                        "",
                                    );
                                    self.push_style_diagnostic(
                                        "max_melodic_leap",
                                        "ML_STYLE_MAX_MELODIC_LEAP",
                                        m.as_str(),
                                        span_line(second.source_span, line),
                                        span_column(second.source_span, column),
                                    );
                                    return;
                                }
                            }
                        },
                        _ => {},
                    }
                },
                None => {},
            }
            last_kept = Some(i);
            i = i + 1;
        }
        assert(!wide_leap(es, marks, max));
    }

    fn check_voice_crossing(&mut self, upper: &TrackIr, lower: &TrackIr)
        ensures
            old(self).only_diagnostics(*final(self)),
            if !old(self).suppresses("voice_crossing"@) && voices_cross(upper.events@, lower.events@) {
                old(self).reported(*final(self), "voice_crossing"@, "ML_STYLE_VOICE_CROSSING"@)
            } else {
                *final(self) == *old(self)
            },
    {
        if self.suppressed("voice_crossing") {
            return;
        }
        let mut i: usize = 0;
        while i < upper.events.len()
            invariant
                *self == *old(self),
                !old(self).suppresses("voice_crossing"@),
                i <= upper.events@.len(),
                forall|a: int, b: int|
                    0 <= a < i && 0 <= b < lower.events@.len() && (#[trigger] upper.events@[a]).start_tick
                        == (#[trigger] lower.events@[b]).start_tick ==> !sounds_below(
                        upper.events@[a].pitch,
                        lower.events@[b].pitch,
                    ),
            decreases upper.events@.len() - i,
        {
            let mut j: usize = 0;
            while j < lower.events.len()
                invariant
                    *self == *old(self),
                    !old(self).suppresses("voice_crossing"@),
                    i < upper.events@.len(),
                    j <= lower.events@.len(),
                    forall|a: int, b: int|
                        0 <= a < i && 0 <= b < lower.events@.len() && (#[trigger] upper.events@[a]).start_tick
                            == (#[trigger] lower.events@[b]).start_tick ==> !sounds_below(
                            upper.events@[a].pitch,
                            lower.events@[b].pitch,
                        ),
                    forall|b: int|
                        0 <= b < j && upper.events@[i as int].start_tick == (#[trigger] lower.events@[b]).start_tick
                            ==> !sounds_below(upper.events@[i as int].pitch, lower.events@[b].pitch),
                decreases lower.events@.len() - j,
            {
                let u = &upper.events[i];
                let l = &lower.events[j];
                if u.start_tick == l.start_tick && option_lt(midi_option(u.pitch), midi_option(l.pitch)) {
                    assert(sounds_below(upper.events@[i as int].pitch, lower.events@[j as int].pitch));
                    assert(voices_cross(upper.events@, lower.events@));
                    let m = message2(
                        "voice `",
                        upper.name.as_str(),
                        "` crosses below voice `",
                        lower.name.as_str(),
                        "`",
                    );
                    self.push_style_diagnostic(
                        "voice_crossing",
                        "ML_STYLE_VOICE_CROSSING",
                        m.as_str(),
                        span_line(u.source_span, 1),
                        span_column(u.source_span, 1),
                    );
                    return;
                }
                j = j + 1;
            }
            i = i + 1;
        }
        assert(!voices_cross(upper.events@, lower.events@));
    }

    /// The pairs of events of two tracks that start together, in the upper track's order.
    fn simultaneous_pairs(upper: &TrackIr, lower: &TrackIr) -> (r: Vec<(usize, usize)>)
        ensures
            r@ == simultaneous(upper.events@, lower.events@),
            forall|k: int|
                0 <= k < r@.len() ==> (#[trigger] r@[k]).0 < upper.events@.len() && r@[k].1
                    < lower.events@.len(),
    {
        let ghost us = upper.events@;
        let ghost ls = lower.events@;
        let mut pairs: Vec<(usize, usize)> = Vec::new();
        let mut i: usize = 0;
        while i < upper.events.len()
            invariant
                us == upper.events@,
                ls == lower.events@,
                i <= us.len(),
                pairs@ == simultaneous(us.take(i as int), ls),
                forall|k: int|
                    0 <= k < pairs@.len() ==> (#[trigger] pairs@[k]).0 < upper.events@.len()
                        && pairs@[k].1 < lower.events@.len(),
            decreases upper.events@.len() - i,
        {
            let ghost before = pairs@;
            let mut j: usize = 0;
            while j < lower.events.len()
                invariant
                    us == upper.events@,
                    ls == lower.events@,
                    i < us.len(),
                    j <= ls.len(),
                    pairs@ == before + pairs_with(i as int, us[i as int], ls.take(j as int)),
                    forall|k: int|
                        0 <= k < pairs@.len() ==> (#[trigger] pairs@[k]).0 < upper.events@.len()
                            && pairs@[k].1 < lower.events@.len(),
                decreases lower.events@.len() - j,
            {
                assert(ls.take(j + 1).drop_last() =~= ls.take(j as int));
                if upper.events[i].start_tick == lower.events[j].start_tick {
                    pairs.push((i, j));
                }
                assert(pairs@ =~= before + pairs_with(i as int, us[i as int], ls.take(j + 1)));
                j = j + 1;
            }
            assert(ls.take(j as int) =~= ls);
            assert(us.take(i + 1).drop_last() =~= us.take(i as int));
            assert(pairs@ =~= simultaneous(us.take(i + 1), ls));
            i = i + 1;
        }
        assert(us.take(i as int) =~= us);
        pairs
    }

    fn check_parallel_fifths(&mut self, upper: &TrackIr, lower: &TrackIr)
        requires
            sorted_by_start(upper.events@),
        ensures
            old(self).only_diagnostics(*final(self)),
            if !old(self).suppresses("parallel_fifths"@) && parallel_fifths(upper.events@, lower.events@) {
                old(self).reported(*final(self), "parallel_fifths"@, "ML_STYLE_PARALLEL_FIFTHS"@)
            } else {
                *final(self) == *old(self)
            },
    {
        if self.suppressed("parallel_fifths") {
            return;
        }
        let pairs = Compiler::simultaneous_pairs(upper, lower);
        let n = pairs.len();
        let mut k: usize = 0;
        while n >= 1 && k < n - 1
            invariant
                n == pairs@.len(),
                *self == *old(self),
                !old(self).suppresses("parallel_fifths"@),
                pairs@ == simultaneous(upper.events@, lower.events@),
                forall|m: int|
                    0 <= m < pairs@.len() ==> (#[trigger] pairs@[m]).0 < upper.events@.len()
                        && pairs@[m].1 < lower.events@.len(),
                forall|m: int| 0 <= m < k && m + 1 < n ==> !#[trigger] fifths_between(upper.events@, lower.events@, pairs@[m], pairs@[m + 1]),
            decreases pairs@.len() - k,
        {
            let (ua, la) = pairs[k];
            let (ub, lb) = pairs[k + 1];
            assert(pairs@[k as int] == (ua, la) && pairs@[k + 1] == (ub, lb));
            let upper_a = &upper.events[ua];
            let lower_a = &lower.events[la];
            let upper_b = &upper.events[ub];
            let lower_b = &lower.events[lb];
            let first = interval_mod_12(upper_a.pitch, lower_a.pitch);
            let second = interval_mod_12(upper_b.pitch, lower_b.pitch);
            let upper_motion = !same_option_u8(midi_option(upper_a.pitch), midi_option(upper_b.pitch));
            let lower_motion = !same_option_u8(midi_option(lower_a.pitch), midi_option(lower_b.pitch));
            if same_option_u8(first, Some(7)) && same_option_u8(second, Some(7)) && upper_motion
                && lower_motion {
                assert(fifths_between(upper.events@, lower.events@, pairs@[k as int], pairs@[k + 1]));
                let m = message2(
                    "voices `",
                    upper.name.as_str(),
                    "` and `",
                    lower.name.as_str(),
                    "` move in parallel fifths",
                );
                self.push_style_diagnostic(
                    "parallel_fifths",
                    "ML_STYLE_PARALLEL_FIFTHS",
                    m.as_str(),
                    span_line(upper_b.source_span, 1),
                    span_column(upper_b.source_span, 1),
                );
                return;
            }
            assert(!fifths_between(upper.events@, lower.events@, pairs@[k as int], pairs@[k + 1]));
            k = k + 1;
        }
        assert(!parallel_fifths(upper.events@, lower.events@));
    }

    fn check_contrapuntal_motion(&mut self, upper: &TrackIr, lower: &TrackIr)
        requires
            sorted_by_start(upper.events@),
        ensures
            old(self).only_diagnostics(*final(self)),
            if old(self).style.contrapuntal_motion@.len() > 0 && !old(self).suppresses("contrapuntal_motion"@) && disallowed_motion(upper.events@, lower.events@, old(self).style.contrapuntal_motion@) {
                old(self).reported(*final(self), "contrapuntal_motion"@, "ML_STYLE_CONTRAPUNTAL_MOTION"@)
            } else {
                *final(self) == *old(self)
            },
    {
        if self.style.contrapuntal_motion.len() == 0 || self.suppressed("contrapuntal_motion") {
            return;
        }
        let pairs = Compiler::simultaneous_pairs(upper, lower);
        let n = pairs.len();
        let ghost ps = pairs@;
        let mut k: usize = 0;
        while n >= 1 && k < n - 1
            invariant
                n == pairs@.len(),
                *self == *old(self),
                old(self).style.contrapuntal_motion@.len() > 0,
                !old(self).suppresses("contrapuntal_motion"@),
                pairs@ == simultaneous(upper.events@, lower.events@),
                ps == pairs@,
                forall|m: int|
                    0 <= m < pairs@.len() ==> (#[trigger] pairs@[m]).0 < upper.events@.len()
                        && pairs@[m].1 < lower.events@.len(),
                forall|m: int|
                    0 <= m < k && m + 1 < n ==> !#[trigger] motion_outside(
                        crate::analysis::motion_of(
                            upper.events@[ps[m].0 as int],
                            lower.events@[ps[m].1 as int],
                            upper.events@[ps[m + 1].0 as int],
                            lower.events@[ps[m + 1].1 as int],
                        ),
                        self.style.contrapuntal_motion@,
                    ),
            decreases pairs@.len() - k,
        {
            let (ua, la) = pairs[k];
            let (ub, lb) = pairs[k + 1];
            assert(ps[k as int] == (ua, la) && ps[k + 1] == (ub, lb));
            match motion_type(&upper.events[ua], &lower.events[la], &upper.events[ub], &lower.events[lb]) {
                Some(motion) => {
                    if !text_list_contains(&self.style.contrapuntal_motion, motion) {
                        let first = message2(
                            "voices `",
                            upper.name.as_str(),
                            "` and `",
                            lower.name.as_str(),
                            "` use disallowed ",
                        );
                        let m = concat3(first.as_str(), motion, " motion");
                        let span = upper.events[ub].source_span;
                        proof {
                            assert(motion_outside(
                                crate::analysis::motion_of(
                                    upper.events@[ps[k as int].0 as int],
                                    lower.events@[ps[k as int].1 as int],
                                    upper.events@[ps[k + 1].0 as int],
                                    lower.events@[ps[k + 1].1 as int],
                                ),
                                old(self).style.contrapuntal_motion@,
                            ));
                        }
                        self.push_style_diagnostic(
                            "contrapuntal_motion",
                            "ML_STYLE_CONTRAPUNTAL_MOTION",
                            m.as_str(),
                            span_line(span, 1),
                            span_column(span, 1),
                        );
                        return;
                    }
                },
                None => {},
            }
            k = k + 1;
        }
        assert(!disallowed_motion(upper.events@, lower.events@, old(self).style.contrapuntal_motion@));
    }

    #[verifier::spinoff_prover]
    fn check_counterpoint_rules(&mut self, tracks: &Vec<TrackIr>)
        requires
            forall|t: int| 0 <= t < tracks@.len() ==> tracks_ok(#[trigger] tracks@[t]),
        ensures
            old(self).only_diagnostics(*final(self)),
            final(self).diagnostics@.take(old(self).diagnostics@.len() as int) == old(self).diagnostics@,
            old(self).reports_all(
                final(self).diagnostics@.skip(old(self).diagnostics@.len() as int),
                old(self).rows_rules(tracks@, tracks@.len() as int),
            ),
    {
        let ghost n0 = self.diagnostics@.len() as int;
        let ghost start = *self;
        proof {
            assert(self.diagnostics@.skip(n0) =~= Seq::<Diagnostic>::empty());
            assert(self.diagnostics@.take(n0) =~= self.diagnostics@);
        }
        if tracks.len() < 2 {
            proof {
                lemma_rows_rules_short(start, tracks@, tracks@.len() as int);
            }
            return;
        }
        let mut u: usize = 0;
        while u < tracks.len()
            invariant
                old(self).only_diagnostics(*self),
                start == *old(self),
                n0 == old(self).diagnostics@.len(),
                u <= tracks@.len(),
                forall|t: int| 0 <= t < tracks@.len() ==> tracks_ok(#[trigger] tracks@[t]),
                self.diagnostics@.len() >= n0,
                self.diagnostics@.take(n0) == old(self).diagnostics@,
                start.reports_all(self.diagnostics@.skip(n0), start.rows_rules(tracks@, u as int)),
            decreases tracks@.len() - u,
        {
            let mut l: usize = u + 1;
            proof {
                assert(start.row_rules(tracks@, u as int, l as int) =~= Seq::empty());
                assert(start.rows_rules(tracks@, u as int) + start.row_rules(tracks@, u as int, l as int)
                    =~= start.rows_rules(tracks@, u as int));
            }
            while l < tracks.len()
                invariant
                    old(self).only_diagnostics(*self),
                    start == *old(self),
                    n0 == old(self).diagnostics@.len(),
                    u < tracks@.len(),
                    u < l <= tracks@.len(),
                    forall|t: int| 0 <= t < tracks@.len() ==> tracks_ok(#[trigger] tracks@[t]),
                    self.diagnostics@.len() >= n0,
                    self.diagnostics@.take(n0) == old(self).diagnostics@,
                    start.reports_all(
                        self.diagnostics@.skip(n0),
                        start.rows_rules(tracks@, u as int) + start.row_rules(tracks@, u as int, l as int),
                    ),
                decreases tracks@.len() - l,
            {
                assert(tracks_ok(tracks@[u as int]));
                let ghost d0 = self.diagnostics@;
                self.check_voice_crossing(&tracks[u], &tracks[l]);
                let ghost d1 = self.diagnostics@;
                self.check_parallel_fifths(&tracks[u], &tracks[l]);
                let ghost d2 = self.diagnostics@;
                self.check_contrapuntal_motion(&tracks[u], &tracks[l]);
                proof {
                    let before = start.rows_rules(tracks@, u as int) + start.row_rules(
                        tracks@,
                        u as int,
                        l as int,
                    );
                    let up = tracks@[u as int];
                    let lo = tracks@[l as int];
                    let f1 = start.fired(
                        "voice_crossing"@,
                        "ML_STYLE_VOICE_CROSSING"@,
                        !start.suppresses("voice_crossing"@) && voices_cross(up.events@, lo.events@),
                    );
                    let f2 = start.fired(
                        "parallel_fifths"@,
                        "ML_STYLE_PARALLEL_FIFTHS"@,
                        !start.suppresses("parallel_fifths"@) && parallel_fifths(up.events@, lo.events@),
                    );
                    let f3 = start.fired(
                        "contrapuntal_motion"@,
                        "ML_STYLE_CONTRAPUNTAL_MOTION"@,
                        start.style.contrapuntal_motion@.len() > 0 && !start.suppresses(
                            "contrapuntal_motion"@,
                        ) && disallowed_motion(up.events@, lo.events@, start.style.contrapuntal_motion@),
                    );
                    lemma_fired_diags(start, d0, d1, "voice_crossing"@, "ML_STYLE_VOICE_CROSSING"@, !start.suppresses("voice_crossing"@) && voices_cross(up.events@, lo.events@));
                    lemma_fired_diags(start, d1, d2, "parallel_fifths"@, "ML_STYLE_PARALLEL_FIFTHS"@, !start.suppresses("parallel_fifths"@) && parallel_fifths(up.events@, lo.events@));
                    lemma_fired_diags(start, d2, self.diagnostics@, "contrapuntal_motion"@, "ML_STYLE_CONTRAPUNTAL_MOTION"@, start.style.contrapuntal_motion@.len() > 0 && !start.suppresses("contrapuntal_motion"@) && disallowed_motion(up.events@, lo.events@, start.style.contrapuntal_motion@));
                    lemma_reports_extend(start, d0, d1, n0, before, f1);
                    lemma_reports_extend(start, d1, d2, n0, before + f1, f2);
                    lemma_reports_extend(start, d2, self.diagnostics@, n0, before + f1 + f2, f3);
                    assert(start.rows_rules(tracks@, u as int) + start.row_rules(tracks@, u as int, l + 1)
                        =~= before + f1 + f2 + f3);
                }
                l = l + 1;
            }
            proof {
                assert(start.rows_rules(tracks@, u + 1) =~= start.rows_rules(tracks@, u as int)
                    + start.row_rules(tracks@, u as int, tracks@.len() as int));
            }
            u = u + 1;
        }
    }

    fn check_texture(&mut self, tracks: &Vec<TrackIr>)
        ensures
            old(self).only_diagnostics(*final(self)),
            if old(self).style.texture matches Some(t) && !old(self).suppresses("texture"@) && !texture_holds(t@, tracks@) {
                old(self).reported(*final(self), "texture"@, "ML_STYLE_TEXTURE"@)
            } else {
                *final(self) == *old(self)
            },
    {
        let texture = match &self.style.texture {
            Some(t) => t.clone(),
            None => return,
        };
        if self.suppressed("texture") {
            return;
        }
        let t = texture.as_str();
        let mut non_empty: usize = 0;
        let mut i: usize = 0;
        while i < tracks.len()
            invariant
                i <= tracks@.len(),
                non_empty <= i,
                non_empty == tracks_with_events(tracks@.take(i as int)),
            decreases tracks@.len() - i,
        {
            assert(tracks@.take(i + 1).drop_last() =~= tracks@.take(i as int));
            if tracks[i].events.len() > 0 {
                non_empty = non_empty + 1;
            }
            i = i + 1;
        }
        assert(tracks@.take(i as int) =~= tracks@);
        let valid = if str_eq(t, "monophony") || str_eq(t, "monophonic") {
            non_empty <= 1
        } else if str_eq(t, "polyphony") || str_eq(t, "polyphonic") {
            non_empty >= 2
        } else if str_eq(t, "homophony") || str_eq(t, "homophonic") {
            tracks_share_attack_grid(tracks.as_slice())
        } else if str_eq(t, "heterophony") || str_eq(t, "heterophonic") {
            tracks_are_heterophonic(tracks.as_slice())
        } else {
            true
        };
        if !valid {
            let m = concat3("score texture does not satisfy `", t, "`");
            let line = self.score_line;
            let column = self.score_column;
            self.push_style_diagnostic("texture", "ML_STYLE_TEXTURE", m.as_str(), line, column);
        }
    }

    fn any_track(tracks: &Vec<TrackIr>, concept: &str) -> (r: bool)
        ensures
            r == exists|k: int| 0 <= k < tracks@.len() && track_shows(concept@, #[trigger] tracks@[k]),
    {
        let mut i: usize = 0;
        while i < tracks.len()
            invariant
                i <= tracks@.len(),
                forall|k: int| 0 <= k < i ==> !track_shows(concept@, #[trigger] tracks@[k]),
            decreases tracks@.len() - i,
        {
            let t = &tracks[i];
            let hit = if str_eq(concept, "ostinato") {
                track_has_repeated_duration_cell(t)
            } else if str_eq(concept, "syncopation") {
                track_has_syncopation(t)
            } else if str_eq(concept, "hemiola") {
                track_has_hemiola(t)
            } else {
                track_has_swing(t)
            };
            if hit {
                return true;
            }
            i = i + 1;
        }
        false
    }

    fn check_rhythm_concepts(&mut self, tracks: &Vec<TrackIr>)
        ensures
            old(self).only_diagnostics(*final(self)),
            if old(self).style.rhythm_concepts@.len() > 0 && !old(self).suppresses("rhythm_concept"@) && exists|i: int| 0 <= i < old(self).style.rhythm_concepts@.len() && known_rhythm_concept((#[trigger] old(self).style.rhythm_concepts@[i])@) && !(exists|k: int| 0 <= k < tracks@.len() && track_shows(old(self).style.rhythm_concepts@[i]@, #[trigger] tracks@[k])) {
                old(self).reported(*final(self), "rhythm_concept"@, "ML_STYLE_RHYTHM_CONCEPT"@)
            } else {
                *final(self) == *old(self)
            },
    {
        if self.style.rhythm_concepts.len() == 0 || self.suppressed("rhythm_concept") {
            return;
        }
        let concepts = self.style.rhythm_concepts.clone();
        assert(concepts@ == self.style.rhythm_concepts@);
        let mut i: usize = 0;
        while i < concepts.len()
            invariant
                *self == *old(self),
                i <= concepts@.len(),
                concepts@ == old(self).style.rhythm_concepts@,
                concepts@.len() > 0,
                !old(self).suppresses("rhythm_concept"@),
                forall|j: int| 0 <= j < i ==> !(known_rhythm_concept((#[trigger] concepts@[j])@) && !(exists|k: int| 0 <= k < tracks@.len() && track_shows(concepts@[j]@, #[trigger] tracks@[k]))),
            decreases concepts@.len() - i,
        {
            let concept = concepts[i].as_str();
            let known = str_eq(concept, "ostinato") || str_eq(concept, "syncopation") || str_eq(
                concept,
                "hemiola",
            ) || str_eq(concept, "swing");
            let valid = !known || Compiler::any_track(tracks, concept);
            if !valid {
                assert(known_rhythm_concept(old(self).style.rhythm_concepts@[i as int]@) && !(exists|k: int|
                    0 <= k < tracks@.len() && track_shows(
                        old(self).style.rhythm_concepts@[i as int]@,
                        #[trigger] tracks@[k],
                    )));
                let m = concat3(
                    "score rhythm does not satisfy required ",
                    concept,
                    " concept",
                );
                let line = self.score_line;
                let column = self.score_column;
                self.push_style_diagnostic(
                    "rhythm_concept",
                    "ML_STYLE_RHYTHM_CONCEPT",
                    m.as_str(),
                    line,
                    column,
                );
                return;
            }
            i = i + 1;
        }
    }

    fn check_form(&mut self)
        ensures
            old(self).only_diagnostics(*final(self)),
            if old(self).style.form matches Some(f) && !old(self).suppresses("form"@) && !form_fits(old(self).catalog, crate::text::views(old(self).section_labels@), f@) {
                old(self).reported(*final(self), "form"@, "ML_STYLE_FORM"@)
            } else {
                *final(self) == *old(self)
            },
    {
        let form = match &self.style.form {
            Some(f) => f.clone(),
            None => return,
        };
        if self.suppressed("form") {
            return;
        }
        if !form_labels_match_catalog(&self.catalog, self.section_labels.as_slice(), form.as_str()) {
            let m = concat3("score sections do not satisfy `", form.as_str(), "` form");
            let line = self.score_line;
            let column = self.score_column;
            self.push_style_diagnostic("form", "ML_STYLE_FORM", m.as_str(), line, column);
        }
    }

    fn window_matches(actual: &Vec<String>, start: usize, expected: &Vec<String>) -> (r: bool)
        requires
            start + expected@.len() <= actual@.len(),
        ensures
            r == (crate::text::views(actual@).subrange(start as int, start + expected@.len())
                == crate::text::views(expected@)),
    {
        let n = actual.len();
        let ghost window = crate::text::views(actual@).subrange(start as int, start + expected@.len());
        let mut k: usize = 0;
        while k < expected.len()
            invariant
                n == actual@.len(),
                start + expected@.len() <= actual@.len(),
                k <= expected@.len(),
                window == crate::text::views(actual@).subrange(start as int, start + expected@.len()),
                forall|j: int| 0 <= j < k ==> window[j] == crate::text::views(expected@)[j],
            decreases expected@.len() - k,
        {
            assert(window[k as int] == actual@[start + k]@);
            assert(crate::text::views(expected@)[k as int] == expected@[k as int]@);
            if !str_eq(actual[start + k].as_str(), expected[k].as_str()) {
                assert(window[k as int] != crate::text::views(expected@)[k as int]);
                return false;
            }
            k = k + 1;
        }
        assert(window =~= crate::text::views(expected@));
        true
    }

    fn check_harmonic_progression(&mut self, tracks: &Vec<TrackIr>)
        ensures
            old(self).only_diagnostics(*final(self)),
            if old(self).style.harmonic_progression@.len() > 0 && !old(self).suppresses("harmonic_progression"@) && crate::analysis::functions_of(crate::analysis::sonorities(tracks@)).len() >= old(self).style.harmonic_progression@.len() && !contains_run(crate::analysis::functions_of(crate::analysis::sonorities(tracks@)), crate::text::views(old(self).style.harmonic_progression@)) {
                old(self).reported(*final(self), "harmonic_progression"@, "ML_STYLE_HARMONIC_PROGRESSION"@)
            } else {
                *final(self) == *old(self)
            },
    {
        if self.style.harmonic_progression.len() == 0 || self.suppressed("harmonic_progression") {
            return;
        }
        let actual = harmonic_functions(tracks.as_slice());
        let expected = &self.style.harmonic_progression;
        if actual.len() < expected.len() {
            return;
        }
        let mut found = false;
        let n = actual.len();
        let m = expected.len();
        let ghost fs = crate::text::views(actual@);
        let ghost es = crate::text::views(expected@);
        let mut start: usize = 0;
        while start <= n - m
            invariant
                n == actual@.len(),
                m == expected@.len(),
                fs == crate::text::views(actual@),
                es == crate::text::views(expected@),
                fs.len() == n && es.len() == m,
                1 <= m <= n,
                start <= n - m + 1,
                found == exists|k: int| 0 <= k < start && #[trigger] fs.subrange(k, k + m) == es,
            decreases n - m + 1 - start,
        {
            if Compiler::window_matches(&actual, start, expected) {
                found = true;
            }
            start = start + 1;
        }
        assert(found == contains_run(fs, es)) by {
            if contains_run(fs, es) {
                let k = choose|k: int| 0 <= k && k + es.len() <= fs.len() && #[trigger] fs.subrange(k, k + es.len()) == es;
                assert(fs.subrange(k, k + m) == es);
            }
        }
        if !found {
            let m = concat3(
                "score does not contain required harmonic progression `",
                join_words(expected).as_str(),
                "`",
            );
            let line = self.score_line;
            let column = self.score_column;
            self.push_style_diagnostic(
                "harmonic_progression",
                "ML_STYLE_HARMONIC_PROGRESSION",
                m.as_str(),
                line,
                column,
            );
        }
    }

    fn check_cadence(&mut self, tracks: &Vec<TrackIr>)
        ensures
            old(self).only_diagnostics(*final(self)),
            if old(self).style.cadences@.len() > 0 && !old(self).suppresses("cadence"@) && crate::analysis::sonorities(tracks@).len() >= 2 && !(exists|i: int| 0 <= i < old(self).style.cadences@.len() && crate::analysis::cadence_fits((#[trigger] old(self).style.cadences@[i])@, crate::analysis::sonorities(tracks@)[crate::analysis::sonorities(tracks@).len() - 2], crate::analysis::sonorities(tracks@).last())) {
                old(self).reported(*final(self), "cadence"@, "ML_STYLE_CADENCE"@)
            } else {
                *final(self) == *old(self)
            },
    {
        if self.style.cadences.len() == 0 || self.suppressed("cadence") {
            return;
        }
        let (penultimate, last) = match final_sonorities(tracks.as_slice()) {
            Some(pair) => pair,
            None => return,
        };
        let mut matched = false;
        let mut i: usize = 0;
        while i < self.style.cadences.len()
            invariant
                i <= self.style.cadences@.len(),
                matched == exists|k: int| 0 <= k < i && crate::analysis::cadence_fits((#[trigger] self.style.cadences@[k])@, penultimate@, last@),
            decreases self.style.cadences@.len() - i,
        {
            if cadence_matches(self.style.cadences[i].as_str(), penultimate.as_slice(), last.as_slice()) {
                matched = true;
            }
            i = i + 1;
        }
        if !matched {
            let m = concat3(
                "score ending does not satisfy cadence candidates `",
                join_words(&self.style.cadences).as_str(),
                "`",
            );
            let line = self.score_line;
            let column = self.score_column;
            self.push_style_diagnostic("cadence", "ML_STYLE_CADENCE", m.as_str(), line, column);
        }
    }

    /// The score's tempo must lie in the style's tempo range.
    fn check_tempo_range(&mut self, tempo_bpm: u16)
        ensures
            old(self).only_diagnostics(*final(self)),
            if old(self).style.tempo_range matches Some((min, max)) && (tempo_bpm < min || tempo_bpm
                > max) && !old(self).overrides("tempo_range"@) {
                old(self).reported(*final(self), "tempo_range"@, "ML_STYLE_TEMPO_RANGE"@)
            } else {
                *final(self) == *old(self)
            },
    {
        let line = self.score_line;
        let column = self.score_column;
        match self.style.tempo_range {
            Some((min, max)) => {
                if (tempo_bpm < min || tempo_bpm > max) && !self.has_override("tempo_range") {
                    let first = message2(
                        "tempo ",
                        number_text(tempo_bpm as u64).as_str(),
                        " is outside active style tempo range ",
                        number_text(min as u64).as_str(),
                        "..=",
                    );
                    let m = concat(first.as_str(), number_text(max as u64).as_str());
                    self.push_style_diagnostic(
                        "tempo_range",
                        "ML_STYLE_TEMPO_RANGE",
                        m.as_str(),
                        line,
                        column,
                    );
                }
            },
            None => {},
        }
    }

    /// The score's meter must be the style's meter.
    fn check_meter(&mut self, meter: Option<Meter>)
        ensures
            old(self).only_diagnostics(*final(self)),
            if old(self).style.meter matches Some(expected) && meter matches Some(actual) && expected
                != actual && !old(self).overrides("meter"@) {
                old(self).reported(*final(self), "meter"@, "ML_STYLE_METER"@)
            } else {
                *final(self) == *old(self)
            },
    {
        let line = self.score_line;
        let column = self.score_column;
        match (self.style.meter, meter) {
            (Some(expected), Some(actual)) => {
                if !expected.same(actual) && !self.has_override("meter") {
                    let first = message2(
                        "meter ",
                        number_text(actual.numerator as u64).as_str(),
                        "/",
                        number_text(actual.denominator as u64).as_str(),
                        " does not match active style meter ",
                    );
                    let m = concat3(
                        first.as_str(),
                        number_text(expected.numerator as u64).as_str(),
                        concat("/", number_text(expected.denominator as u64).as_str()).as_str(),
                    );
                    self.push_style_diagnostic("meter", "ML_STYLE_METER", m.as_str(), line, column);
                }
            },
            _ => {},
        }
    }

    /// The score's meter must be one of the catalog meters that the style lists.
    fn check_meter_catalog(&mut self, meter: Option<Meter>)
        ensures
            old(self).only_diagnostics(*final(self)),
            if meter matches Some(actual) && old(self).style.meter_catalog@.len() > 0 && !old(
                self,
            ).overrides("meter_catalog"@) && !(exists|i: int|
                0 <= i < old(self).style.meter_catalog@.len() && (#[trigger] old(
                    self,
                ).style.meter_catalog@[i])@ == crate::vocab::meter_text(actual) && crate::theory::has_entry(
                    old(self).catalog.entries_spec(TheoryDomain::Meters),
                    old(self).style.meter_catalog@[i]@,
                )) {
                old(self).reported(*final(self), "meter_catalog"@, "ML_STYLE_METER_CATALOG"@)
            } else {
                *final(self) == *old(self)
            },
    {
        let line = self.score_line;
        let column = self.score_column;
        match meter {
            Some(actual) => {
                if self.style.meter_catalog.len() > 0 && !self.has_override("meter_catalog") {
                    let mut listed = false;
                    let mut i: usize = 0;
                    while i < self.style.meter_catalog.len()
                        invariant
                            i <= self.style.meter_catalog@.len(),
                            listed == exists|k: int|
                                0 <= k < i && (#[trigger] self.style.meter_catalog@[k])@
                                    == crate::vocab::meter_text(actual) && crate::theory::has_entry(
                                    self.catalog.entries_spec(TheoryDomain::Meters),
                                    self.style.meter_catalog@[k]@,
                                ),
                        decreases self.style.meter_catalog@.len() - i,
                    {
                        if meter_matches_catalog(
                            &self.catalog,
                            actual,
                            self.style.meter_catalog[i].as_str(),
                        ) {
                            listed = true;
                        }
                        i = i + 1;
                    }
                    if !listed {
                        let m = message2(
                            "meter ",
                            number_text(actual.numerator as u64).as_str(),
                            "/",
                            number_text(actual.denominator as u64).as_str(),
                            " is outside active style meter catalog",
                        );
                        self.push_style_diagnostic(
                            "meter_catalog",
                            "ML_STYLE_METER_CATALOG",
                            m.as_str(),
                            line,
                            column,
                        );
                    }
                }
            },
            None => {},
        }
    }

    /// The score-level rules: tempo range, meter and meter catalog, in that order.
    fn check_score_style(&mut self, tempo_bpm: u16, meter: Option<Meter>)
        ensures
            old(self).only_diagnostics(*final(self)),
            ({
                let n0 = old(self).diagnostics@.len();
                let f1 = old(self).fires("tempo_range"@, old(self).tempo_violated(tempo_bpm));
                let f2 = old(self).fires("meter"@, old(self).meter_violated(meter));
                let f3 = old(self).fires("meter_catalog"@, old(self).meter_catalog_violated(meter));
                let ds = final(self).diagnostics@;
                &&& ds.len() == n0 + f1 + f2 + f3
                &&& ds.take(n0 as int) == old(self).diagnostics@
                &&& (f1 == 1 ==> old(self).reports(ds[n0 as int], "tempo_range"@, "ML_STYLE_TEMPO_RANGE"@))
                &&& (f2 == 1 ==> old(self).reports(ds[(n0 + f1) as int], "meter"@, "ML_STYLE_METER"@))
                &&& (f3 == 1 ==> old(self).reports(
                    ds[(n0 + f1 + f2) as int],
                    "meter_catalog"@,
                    "ML_STYLE_METER_CATALOG"@,
                ))
            }),
    {
        let ghost d0 = self.diagnostics@;
        self.check_tempo_range(tempo_bpm);
        let ghost d1 = self.diagnostics@;
        self.check_meter(meter);
        let ghost d2 = self.diagnostics@;
        self.check_meter_catalog(meter);
        proof {
            let n0 = d0.len();
            let ds = self.diagnostics@;
            assert(d1.take(n0 as int) =~= d0);
            assert(d2.take(d1.len() as int) =~= d1);
            assert(ds.take(d2.len() as int) =~= d2);
            assert(ds.take(n0 as int) =~= d0);
        }
    }

    fn check_pitch_style(&mut self, pitch: Pitch, line: usize, column: usize, span: Option<Span>)
        ensures
            old(self).only_diagnostics(*final(self)),
            if !crate::style::allows_class(old(self).style, pitch.class_spec()) && !old(self).overrides("scale"@) {
                old(self).reported(*final(self), "scale"@, "ML_STYLE_SCALE"@)
            } else {
                *final(self) == *old(self)
            },
    {
        if self.style.allows_pitch(pitch) || self.has_override("scale") {
            return;
        }
        let m = concat3("pitch ", pitch.to_text().as_str(), " is outside active style scale");
        self.push_style_diagnostic_with_span("scale", "ML_STYLE_SCALE", m.as_str(), line, column, span);
    }

    fn check_chord_vocab(&mut self, pitches: &Vec<Pitch>, line: usize, column: usize, span: Option<Span>)
        ensures
            old(self).only_diagnostics(*final(self)),
            if old(self).style.chord_vocab@.len() > 0 && !old(self).overrides("chord_vocab"@)
                && !chord_in_vocab(old(self).style.chord_vocab@, pitch_classes(pitches@)) {
                old(self).reported(*final(self), "chord_vocab"@, "ML_STYLE_CHORD_VOCAB"@)
            } else {
                *final(self) == *old(self)
            },
    {
        if self.style.chord_vocab.len() == 0 || self.has_override("chord_vocab") {
            return;
        }
        let mut classes: Vec<PitchClass> = Vec::new();
        let mut i: usize = 0;
        while i < pitches.len()
            invariant
                i <= pitches@.len(),
                classes@ == pitch_classes(pitches@.take(i as int)),
            decreases pitches@.len() - i,
        {
            classes.push(pitches[i].class());
            assert(pitch_classes(pitches@.take(i + 1)) =~= pitch_classes(pitches@.take(i as int)).push(
                pitches@[i as int].class_spec(),
            ));
            i = i + 1;
        }
        assert(pitches@.take(i as int) =~= pitches@);
        let mut allowed = false;
        let mut v: usize = 0;
        while v < self.style.chord_vocab.len()
            invariant
                v <= self.style.chord_vocab@.len(),
                classes@ == pitch_classes(pitches@),
                allowed == exists|w: int|
                    0 <= w < v && (#[trigger] self.style.chord_vocab@[w])@.len() == classes@.len()
                        && contains_all(classes@, self.style.chord_vocab@[w]@),
            decreases self.style.chord_vocab@.len() - v,
        {
            let vocab = &self.style.chord_vocab[v];
            if vocab.len() == classes.len() && contains_classes(classes.as_slice(), vocab.as_slice()) {
                allowed = true;
            }
            v = v + 1;
        }
        if !allowed {
            self.push_style_diagnostic_with_span(
                "chord_vocab",
                "ML_STYLE_CHORD_VOCAB",
                "chord is outside active style vocabulary",
                line,
                column,
                span,
            );
        }
    }

    fn check_chord_quality_vocab(
        &mut self,
        pitches: &Vec<Pitch>,
        line: usize,
        column: usize,
        span: Option<Span>,
    )
        ensures
            old(self).only_diagnostics(*final(self)),
            if old(self).style.chord_quality_vocab@.len() > 0 && !old(self).overrides("chord_quality_vocab"@)
                && !(exists|i: int| 0 <= i < old(self).style.chord_quality_vocab@.len() && chord_fits(old(self).catalog, TheoryDomain::ChordQualities, pitches@, (#[trigger] old(self).style.chord_quality_vocab@[i])@)) {
                old(self).reported(*final(self), "chord_quality_vocab"@, "ML_STYLE_CHORD_QUALITY_VOCAB"@)
            } else {
                *final(self) == *old(self)
            },
    {
        if self.style.chord_quality_vocab.len() == 0 || self.has_override("chord_quality_vocab") {
            return;
        }
        let mut allowed = false;
        let mut i: usize = 0;
        while i < self.style.chord_quality_vocab.len()
            invariant
                i <= self.style.chord_quality_vocab@.len(),
                allowed == exists|k: int| 0 <= k < i && chord_fits(self.catalog, TheoryDomain::ChordQualities, pitches@, (#[trigger] self.style.chord_quality_vocab@[k])@),
            decreases self.style.chord_quality_vocab@.len() - i,
        {
            if chord_matches_quality(
                &self.catalog,
                pitches.as_slice(),
                self.style.chord_quality_vocab[i].as_str(),
            ) {
                allowed = true;
            }
            i = i + 1;
        }
        if !allowed {
            self.push_style_diagnostic_with_span(
                "chord_quality_vocab",
                "ML_STYLE_CHORD_QUALITY_VOCAB",
                "chord quality is outside active style vocabulary",
                line,
                column,
                span,
            );
        }
    }

    fn check_set_class_vocab(
        &mut self,
        pitches: &Vec<Pitch>,
        line: usize,
        column: usize,
        span: Option<Span>,
    )
        ensures
            old(self).only_diagnostics(*final(self)),
            if old(self).style.set_class_vocab@.len() > 0 && !old(self).overrides("set_class_vocab"@)
                && !(exists|i: int| 0 <= i < old(self).style.set_class_vocab@.len() && chord_fits(old(self).catalog, TheoryDomain::SetClasses, pitches@, (#[trigger] old(self).style.set_class_vocab@[i])@)) {
                old(self).reported(*final(self), "set_class_vocab"@, "ML_STYLE_SET_CLASS_VOCAB"@)
            } else {
                *final(self) == *old(self)
            },
    {
        if self.style.set_class_vocab.len() == 0 || self.has_override("set_class_vocab") {
            return;
        }
        let mut allowed = false;
        let mut i: usize = 0;
        while i < self.style.set_class_vocab.len()
            invariant
                i <= self.style.set_class_vocab@.len(),
                allowed == exists|k: int| 0 <= k < i && chord_fits(self.catalog, TheoryDomain::SetClasses, pitches@, (#[trigger] self.style.set_class_vocab@[k])@),
            decreases self.style.set_class_vocab@.len() - i,
        {
            if chord_matches_set_class(
                &self.catalog,
                pitches.as_slice(),
                self.style.set_class_vocab[i].as_str(),
            ) {
                allowed = true;
            }
            i = i + 1;
        }
        if !allowed {
            self.push_style_diagnostic_with_span(
                "set_class_vocab",
                "ML_STYLE_SET_CLASS_VOCAB",
                "chord set class is outside active style vocabulary",
                line,
                column,
                span,
            );
        }
    }

    fn check_rhythm_vocab(&mut self, duration: Duration, line: usize, column: usize, span: Option<Span>)
        ensures
            old(self).only_diagnostics(*final(self)),
            if old(self).style.rhythm_vocab@.len() > 0 && !old(self).overrides("rhythm_vocab"@)
                && !(exists|i: int| 0 <= i < old(self).style.rhythm_vocab@.len() && (#[trigger] old(self).style.rhythm_vocab@[i]).numerator_spec() == duration.numerator_spec() && old(self).style.rhythm_vocab@[i].denominator_spec() == duration.denominator_spec()) {
                old(self).reported(*final(self), "rhythm_vocab"@, "ML_STYLE_RHYTHM_VOCAB"@)
            } else {
                *final(self) == *old(self)
            },
    {
        if self.style.rhythm_vocab.len() == 0 || self.has_override("rhythm_vocab") {
            return;
        }
        let mut listed = false;
        let mut i: usize = 0;
        while i < self.style.rhythm_vocab.len()
            invariant
                i <= self.style.rhythm_vocab@.len(),
                listed == exists|k: int| 0 <= k < i && (#[trigger] self.style.rhythm_vocab@[k]).numerator_spec() == duration.numerator_spec() && self.style.rhythm_vocab@[k].denominator_spec() == duration.denominator_spec(),
            decreases self.style.rhythm_vocab@.len() - i,
        {
            if self.style.rhythm_vocab[i].same(duration) {
                listed = true;
            }
            i = i + 1;
        }
        if !listed {
            let m = message2(
                "duration ",
                number_text(duration.numerator() as u64).as_str(),
                "/",
                number_text(duration.denominator() as u64).as_str(),
                " is outside active style rhythm vocabulary",
            );
            self.push_style_diagnostic_with_span(
                "rhythm_vocab",
                "ML_STYLE_RHYTHM_VOCAB",
                m.as_str(),
                line,
                column,
                span,
            );
        }
    }

    fn check_instrument_range(
        &mut self,
        program: Option<u8>,
        pitch: Pitch,
        line: usize,
        column: usize,
        span: Option<Span>,
    )
        ensures
            old(self).only_diagnostics(*final(self)),
            if program matches Some(p) && !old(self).overrides("instrument_range"@) && exists|k: int| 0 <= k < old(self).style.instrument_ranges@.len() && (#[trigger] old(self).style.instrument_ranges@[k]).program == p && (forall|j: int| 0 <= j < k ==> (#[trigger] old(self).style.instrument_ranges@[j]).program != p) && out_of_range(pitch, old(self).style.instrument_ranges@[k]) {
                old(self).reported(*final(self), "instrument_range"@, "ML_STYLE_INSTRUMENT_RANGE"@)
            } else {
                *final(self) == *old(self)
            },
    {
        let program = match program {
            Some(p) => p,
            None => return,
        };
        if self.has_override("instrument_range") {
            return;
        }
        let mut found: Option<usize> = None;
        let mut i: usize = 0;
        while i < self.style.instrument_ranges.len()
            invariant
                i <= self.style.instrument_ranges@.len(),
                found matches Some(k) ==> k < i && self.style.instrument_ranges@[k as int].program == program
                    && forall|j: int| 0 <= j < k ==> (#[trigger] self.style.instrument_ranges@[j]).program != program,
                found is None ==> forall|j: int| 0 <= j < i ==> (#[trigger] self.style.instrument_ranges@[j]).program != program,
            decreases self.style.instrument_ranges@.len() - i,
        {
            if found.is_none() && self.style.instrument_ranges[i].program == program {
                found = Some(i);
            }
            i = i + 1;
        }
        let k = match found {
            Some(k) => k,
            None => return,
        };
        let range = &self.style.instrument_ranges[k];
        match (pitch.midi_number(), range.low.midi_number(), range.high.midi_number()) {
            (Ok(p), Ok(low), Ok(high)) => {
                if p < low || p > high {
                    let m = message2(
                        "pitch ",
                        pitch.to_text().as_str(),
                        " is outside program ",
                        number_text(program as u64).as_str(),
                        " range",
                    );
                    self.push_style_diagnostic_with_span(
                        "instrument_range",
                        "ML_STYLE_INSTRUMENT_RANGE",
                        m.as_str(),
                        line,
                        column,
                        span,
                    );
                }
            },
            _ => {},
        }
    }

    fn push_scope(&mut self)
        ensures
            final(self).variables@.len() == old(self).variables@.len() + 1,
            *final(self) == (Compiler { variables: final(self).variables, ..*old(self) }),
    {
        self.variables.push(Vec::new());
    }

    fn pop_scope(&mut self)
        requires
            old(self).variables@.len() > 1,
        ensures
            final(self).variables@.len() == old(self).variables@.len() - 1,
            *final(self) == (Compiler { variables: final(self).variables, ..*old(self) }),
    {
        self.variables.pop();
    }

    /// Binds a name in the innermost scope, replacing an earlier binding there.
    fn set_var(&mut self, name: &str, value: Value)
        requires
            old(self).variables@.len() >= 1,
        ensures
            final(self).variables@.len() == old(self).variables@.len(),
            *final(self) == (Compiler { variables: final(self).variables, ..*old(self) }),
            lookup(final(self).variables@, name@) == Some(value),
            forall|other: Seq<char>|
                other != name@ ==> #[trigger] lookup(final(self).variables@, other) == lookup(
                    old(self).variables@,
                    other,
                ),
    {
        let ghost before = self.variables@;
        let mut scope = match self.variables.pop() {
            Some(s) => s,
            None => Vec::new(),
        };
        let ghost old_scope = scope@;
        let mut found: Option<usize> = None;
        let mut i: usize = 0;
        while i < scope.len()
            invariant
                i <= scope@.len(),
                found matches Some(k) ==> k < i && scope@[k as int].0@ == name@ && forall|j: int|
                    0 <= j < k ==> (#[trigger] scope@[j]).0@ != name@,
                found is None ==> forall|j: int| 0 <= j < i ==> (#[trigger] scope@[j]).0@ != name@,
            decreases scope@.len() - i,
        {
            if found.is_none() && str_eq(scope[i].0.as_str(), name) {
                found = Some(i);
            }
            i = i + 1;
        }
        let n = owned(name);
        match found {
            Some(k) => {
                scope.set(k, (n, value));
                proof {
                    assert forall|j: int| 0 <= j < k implies (#[trigger] scope@[j]).0@ != name@ by {
                        assert(scope@[j] == old_scope[j]);
                    }
                    lemma_scope_lookup_at(scope@, name@, k as int);
                    assert forall|other: Seq<char>| other != name@ implies #[trigger] scope_lookup(
                        scope@,
                        other,
                    ) == scope_lookup(old_scope, other) by {
                        scope_lookup_replace(old_scope, scope@, other, name@, k as int);
                    }
                }
            },
            None => {
                scope.push((n, value));
                proof {
                    assert forall|j: int| 0 <= j < old_scope.len() implies (#[trigger] scope@[j]).0@
                        != name@ by {
                        assert(scope@[j] == old_scope[j]);
                    }
                    lemma_scope_lookup_at(scope@, name@, old_scope.len() as int);
                    assert forall|other: Seq<char>| other != name@ implies #[trigger] scope_lookup(
                        scope@,
                        other,
                    ) == scope_lookup(old_scope, other) by {
                        scope_lookup_push(old_scope, scope@, other);
                    }
                }
            },
        }
        self.variables.push(scope);
        proof {
            assert(self.variables@.drop_last() =~= before.drop_last());
            assert(self.variables@.last() == scope);
        }
    }

    /// The value bound to a name in the innermost scope that binds it.
    fn resolve_token(&self, token: &str) -> (r: Option<Value>)
        ensures
            r is None <==> lookup(self.variables@, token@) is None,
            r matches Some(v) ==> model(v) == model(lookup(self.variables@, token@)->0),
    {
        let mut s = self.variables.len();
        proof {
            assert(self.variables@.take(s as int) =~= self.variables@);
        }
        while s > 0
            invariant
                s <= self.variables@.len(),
                lookup(self.variables@, token@) == lookup(self.variables@.take(s as int), token@),
            decreases s,
        {
            s = s - 1;
            let ghost scope = self.variables@[s as int]@;
            let mut i: usize = 0;
            while i < self.variables[s].len()
                invariant
                    s < self.variables@.len(),
                    scope == self.variables@[s as int]@,
                    i <= scope.len(),
                    forall|j: int| 0 <= j < i ==> (#[trigger] scope[j]).0@ != token@,
                    lookup(self.variables@, token@) == lookup(self.variables@.take(s + 1), token@),
                decreases self.variables@[s as int]@.len() - i,
            {
                if str_eq(self.variables[s][i].0.as_str(), token) {
                    proof {
                        lemma_scope_lookup_at(scope, token@, i as int);
                        assert(self.variables@.take(s + 1).last() == self.variables@[s as int]);
                    }
                    return Some(copy_value(&self.variables[s][i].1));
                }
                i = i + 1;
            }
            proof {
                lemma_scope_lookup_none(scope, token@);
                assert(self.variables@.take(s + 1).drop_last() =~= self.variables@.take(s as int));
                assert(self.variables@.take(s + 1).last() == self.variables@[s as int]);
            }
        }
        None
    }

    fn push_plain_error(&mut self, code: &str, message: &str, line: usize, column: usize)
        ensures
            old(self).only_diagnostics(*final(self)),
            final(self).diagnostics@.len() == old(self).diagnostics@.len() + 1,
            final(self).diagnostics@.last().severity == Severity::Error,
            old(self).eval_reports(*final(self), false),
    {
        self.diagnostics.push(Diagnostic::error(code, message, line, column));
        assert(self.diagnostics@.take(old(self).diagnostics@.len() as int) =~= old(self).diagnostics@);
    }

    fn eval_call(&mut self, callee: &str, args: Vec<Value>, line: usize, column: usize) -> (r: Option<Value>)
        ensures
            old(self).only_diagnostics(*final(self)),
            old(self).eval_reports(*final(self), r is Some),
            match r {
                Some(v) => call_model(callee@, models(args@)) == Some(model(v)),
                None => call_model(callee@, models(args@)) is None,
            },
    {
        proof {
            lemma_models_index(args@);
        }
        if str_eq(callee, "transpose") && args.len() == 2 {
            match (&args[0], &args[1]) {
                (Value::Pitch(pitch), Value::Interval(interval)) => {
                    return match pitch.transpose(*interval) {
                        Ok(p) => Some(Value::Pitch(p)),
                        Err(e) => {
                            self.push_plain_error(
                                "ML_EVAL_UNSUPPORTED_OP",
                                e.message().as_str(),
                                line,
                                column,
                            );
                            None
                        },
                    };
                },
                _ => {},
            }
        }
        if str_eq(callee, "duration") && args.len() == 1 {
            match &args[0] {
                Value::String(value) => {
                    return match Duration::parse(value.as_str()) {
                        Ok(d) => Some(Value::Duration(d)),
                        Err(e) => {
                            self.push_plain_error("ML_CORE_DURATION", e.message().as_str(), line, column);
                            None
                        },
                    };
                },
                _ => {},
            }
        }
        if str_eq(callee, "pitch") && args.len() == 1 {
            match &args[0] {
                Value::String(value) => {
                    return match Pitch::parse(value.as_str()) {
                        Ok(p) => Some(Value::Pitch(p)),
                        Err(e) => {
                            self.push_plain_error("ML_CORE_PITCH", e.message().as_str(), line, column);
                            None
                        },
                    };
                },
                _ => {},
            }
        }
        if str_eq(callee, "first") && args.len() == 1 {
            match &args[0] {
                Value::List(values) => {
                    proof {
                        lemma_models_index(values@);
                    }
                    if values.len() > 0 {
                        return Some(copy_value(&values[0]));
                    }
                    self.push_plain_error("ML_TYPE_MISMATCH", "expected non-empty list", line, column);
                    return None;
                },
                _ => {},
            }
        }
        let m = concat3("unsupported call `", callee, "`");
        self.push_plain_error("ML_EVAL_UNSUPPORTED_OP", m.as_str(), line, column);
        None
    }

    fn eval_binary(&mut self, op: BinaryOp, left: Value, right: Value, line: usize, column: usize) -> (r:
        Option<Value>)
        ensures
            old(self).only_diagnostics(*final(self)),
            old(self).eval_reports(*final(self), r is Some),
            match r {
                Some(v) => binary_model(op, model(left), model(right)) == Some(model(v)),
                None => binary_model(op, model(left), model(right)) is None,
            },
    {
        match (op, left, right) {
            (BinaryOp::Add, Value::Pitch(pitch), Value::Interval(interval)) => match pitch.add(interval) {
                Ok(p) => Some(Value::Pitch(p)),
                Err(e) => {
                    self.push_plain_error("ML_EVAL_UNSUPPORTED_OP", e.message().as_str(), line, column);
                    None
                },
            },
            (BinaryOp::Sub, Value::Pitch(pitch), Value::Interval(interval)) => {
                if interval.semitones() == i16::MIN {
                    self.push_plain_error(
                        "ML_EVAL_UNSUPPORTED_OP",
                        "interval cannot be negated",
                        line,
                        column,
                    );
                    return None;
                }
                match pitch.sub(interval) {
                    Ok(p) => Some(Value::Pitch(p)),
                    Err(e) => {
                        self.push_plain_error(
                            "ML_EVAL_UNSUPPORTED_OP",
                            e.message().as_str(),
                            line,
                            column,
                        );
                        None
                    },
                }
            },
            (BinaryOp::Eq, Value::Int(a), Value::Int(b)) => Some(Value::Bool(a == b)),
            (BinaryOp::Eq, Value::Bool(a), Value::Bool(b)) => Some(Value::Bool(a == b)),
            _ => {
                self.push_plain_error(
                    "ML_TYPE_MISMATCH",
                    "unsupported expression operand types",
                    line,
                    column,
                );
                None
            },
        }
    }

    fn eval_list(&mut self, exprs: &Vec<Expr>, line: usize, column: usize) -> (r: Option<Vec<Value>>)
        ensures
            old(self).only_diagnostics(*final(self)),
            old(self).eval_reports(*final(self), r is Some),
            match r {
                Some(vs) => list_model(old(self).variables@, exprs@) == Some(models(vs@)),
                None => list_model(old(self).variables@, exprs@) is None,
            },
        decreases exprs, 0nat,
    {
        let ghost scopes = self.variables@;
        let mut values: Vec<Value> = Vec::new();
        let mut i: usize = 0;
        proof {
            assert(exprs@.take(0) =~= Seq::<Expr>::empty());
        }
        while i < exprs.len()
            invariant
                old(self).only_diagnostics(*self),
                self.diagnostics@ == old(self).diagnostics@,
                scopes == old(self).variables@,
                i <= exprs@.len(),
                list_model(scopes, exprs@.take(i as int)) == Some(models(values@)),
            decreases exprs@.len() - i,
        {
            proof {
                assert(decreases_to!(*exprs => exprs@));
                assert(decreases_to!(exprs@ => exprs@[i as int]));
                assert(exprs@.take(i + 1).drop_last() =~= exprs@.take(i as int));
                assert(exprs@.take(i + 1).last() == exprs@[i as int]);
            }
            match self.eval_expr(&exprs[i], line, column) {
                Some(v) => {
                    proof {
                        lemma_models_push(values@, v);
                    }
                    values.push(v);
                },
                None => {
                    proof {
                        lemma_list_model_none(scopes, exprs@, i + 1);
                    }
                    return None;
                },
            }
            i = i + 1;
        }
        proof {
            assert(exprs@.take(i as int) =~= exprs@);
        }
        Some(values)
    }

    fn eval_expr(&mut self, expr: &Expr, line: usize, column: usize) -> (r: Option<Value>)
        ensures
            old(self).only_diagnostics(*final(self)),
            old(self).eval_reports(*final(self), r is Some),
            match r {
                Some(v) => expr_model(old(self).variables@, *expr) == Some(model(v)),
                None => expr_model(old(self).variables@, *expr) is None,
            },
        decreases expr, 1nat,
    {
        match &expr.kind {
            ExprKind::Ident(name) => match self.resolve_token(name.as_str()) {
                Some(v) => {
                    assert(expr_model(old(self).variables@, *expr) == Some(model(v)));
                    Some(v)
                },
                None => {
                    let m = concat3("unknown name `", name.as_str(), "`");
                    self.push_plain_error("ML_RESOLVE_UNKNOWN_NAME", m.as_str(), line, column);
                    None
                },
            },
            ExprKind::Int(v) => {
                assert(expr_model(old(self).variables@, *expr) == Some(model(Value::Int(*v))));
                Some(Value::Int(*v))
            },
            ExprKind::Bool(v) => {
                assert(expr_model(old(self).variables@, *expr) == Some(model(Value::Bool(*v))));
                Some(Value::Bool(*v))
            },
            ExprKind::PitchLiteral(text) => match Pitch::parse(text.as_str()) {
                Ok(p) => {
                    assert(expr_model(old(self).variables@, *expr) == Some(model(Value::Pitch(p))));
                    Some(Value::Pitch(p))
                },
                Err(e) => {
                    self.push_plain_error("ML_CORE_PITCH", e.message().as_str(), line, column);
                    None
                },
            },
            ExprKind::IntervalLiteral(text) => match Interval::parse(text.as_str()) {
                Ok(i) => {
                    assert(expr_model(old(self).variables@, *expr) == Some(model(Value::Interval(i))));
                    Some(Value::Interval(i))
                },
                Err(e) => {
                    self.push_plain_error("ML_CORE_INTERVAL", e.message().as_str(), line, column);
                    None
                },
            },
            ExprKind::DurationLiteral(text) => match Duration::parse(text.as_str()) {
                Ok(d) => {
                    assert(expr_model(old(self).variables@, *expr) == Some(model(Value::Duration(d))));
                    Some(Value::Duration(d))
                },
                Err(e) => {
                    self.push_plain_error("ML_CORE_DURATION", e.message().as_str(), line, column);
                    None
                },
            },
            ExprKind::StringLiteral(text) => {
                let c = text.clone();
                assert(c@ == text@);
                assert(expr_model(old(self).variables@, *expr) == Some(model(Value::String(c))));
                Some(Value::String(c))
            },
            ExprKind::List(items) => {
                proof {
                    assert(decreases_to!(*expr => expr.kind));
                }
                match self.eval_list(items, line, column) {
                    Some(values) => {
                        let r = Value::List(values);
                        assert(expr_model(old(self).variables@, *expr) == Some(model(r)));
                        Some(r)
                    },
                    None => None,
                }
            },
            ExprKind::Call { callee, args } => {
                proof {
                    assert(decreases_to!(*expr => expr.kind));
                }
                let values = match self.eval_list(args, line, column) {
                    Some(values) => values,
                    None => return None,
                };
                let ghost vm = models(values@);
                let r = self.eval_call(callee.as_str(), values, line, column);
                assert(r matches Some(v) ==> expr_model(old(self).variables@, *expr) == Some(model(v)));
                r
            },
            ExprKind::Binary { op, left, right } => {
                proof {
                    assert(decreases_to!(*expr => expr.kind));
                }
                let a = match self.eval_expr(left, line, column) {
                    Some(v) => v,
                    None => return None,
                };
                let b = match self.eval_expr(right, line, column) {
                    Some(v) => v,
                    None => return None,
                };
                let ghost ma = model(a);
                let ghost mb = model(b);
                let r = self.eval_binary(*op, a, b, line, column);
                assert(r matches Some(v) ==> expr_model(old(self).variables@, *expr) == Some(model(v)));
                r
            },
        }
    }

    fn eval_pitch(&mut self, expr: &Expr, line: usize, column: usize) -> (r: Option<Pitch>)
        ensures
            old(self).only_diagnostics(*final(self)),
            old(self).eval_reports(*final(self), r is Some),
            match r {
                Some(p) => expr_model(old(self).variables@, *expr) == Some(ValueModel::Pitch(p)),
                None => !(expr_model(old(self).variables@, *expr) matches Some(ValueModel::Pitch(_))),
            },
    {
        match self.eval_expr(expr, line, column) {
            Some(Value::Pitch(p)) => Some(p),
            Some(_) => {
                self.push_plain_error("ML_TYPE_MISMATCH", "expected pitch expression", line, column);
                None
            },
            None => None,
        }
    }

    fn eval_duration(&mut self, expr: &Expr, line: usize, column: usize) -> (r: Option<Duration>)
        ensures
            old(self).only_diagnostics(*final(self)),
            old(self).eval_reports(*final(self), r is Some),
            match r {
                Some(d) => expr_model(old(self).variables@, *expr) == Some(ValueModel::Duration(d)),
                None => !(expr_model(old(self).variables@, *expr) matches Some(ValueModel::Duration(_))),
            },
    {
        match self.eval_expr(expr, line, column) {
            Some(Value::Duration(d)) => Some(d),
            Some(_) => {
                self.push_plain_error("ML_TYPE_MISMATCH", "expected duration expression", line, column);
                None
            },
            None => None,
        }
    }

    fn eval_bool(&mut self, expr: &Expr, line: usize, column: usize) -> (r: Option<bool>)
        ensures
            old(self).only_diagnostics(*final(self)),
            old(self).eval_reports(*final(self), r is Some),
            match r {
                Some(b) => expr_model(old(self).variables@, *expr) == Some(ValueModel::Bool(b)),
                None => !(expr_model(old(self).variables@, *expr) matches Some(ValueModel::Bool(_))),
            },
    {
        match self.eval_expr(expr, line, column) {
            Some(Value::Bool(b)) => Some(b),
            Some(_) => {
                self.push_plain_error("ML_TYPE_MISMATCH", "expected bool expression", line, column);
                None
            },
            None => None,
        }
    }

    fn compile_note(&mut self, note: &NoteStmt, track: &mut TrackBuilder)
        requires
            old(track).wf(),
        ensures
            old(self).only_diagnostics(*final(self)),
            final(track).wf(),
            note_effect(old(self).variables@, *note, *old(track), *final(track)),
            note_value(old(self).variables@, note.pitch_expr, note.duration_expr) is None ==> has_error(
                final(self).diagnostics@,
            ),
    {
        let pitch = match self.eval_pitch(&note.pitch_expr, note.line, note.column) {
            Some(p) => p,
            None => return,
        };
        let duration = match self.eval_duration(&note.duration_expr, note.line, note.column) {
            Some(d) => d,
            None => return,
        };
        self.check_pitch_style(pitch, note.line, note.column, Some(note.span));
        self.check_rhythm_vocab(duration, note.line, note.column, Some(note.span));
        self.check_instrument_range(track.program(), pitch, note.line, note.column, Some(note.span));
        track.push_note(Note::new(pitch, duration), Some(note.span));
    }

    fn type_mismatch_at(&mut self, chord: &ChordStmt)
        ensures
            old(self).only_diagnostics(*final(self)),
            one_more(old(self).diagnostics@, final(self).diagnostics@),
            spanned_error(
                final(self).diagnostics@.last(),
                "ML_TYPE_MISMATCH"@,
                "expected pitch expression"@,
                chord.span,
            ),
    {
        self.push_error(
            Diagnostic::error(
                "ML_TYPE_MISMATCH",
                "expected pitch expression",
                chord.line,
                chord.column,
            ).with_span(chord.span),
        );
        assert(self.diagnostics@.drop_last() =~= old(self).diagnostics@);
    }

    /// The style checks of a whole chord: its pitch classes, quality, set class and duration.
    fn check_chord_rules(&mut self, pitches: &Vec<Pitch>, duration: Duration, line: usize, column: usize, span: Span)
        ensures
            old(self).only_diagnostics(*final(self)),
            final(self).diagnostics@.len() >= old(self).diagnostics@.len(),
            final(self).diagnostics@.take(old(self).diagnostics@.len() as int) == old(self).diagnostics@,
            old(self).reports_all(
                final(self).diagnostics@.skip(old(self).diagnostics@.len() as int),
                old(self).chord_rules(pitches@, duration),
            ),
    {
        let ghost c = *self;
        let ghost f1 = c.fired("chord_vocab"@, "ML_STYLE_CHORD_VOCAB"@, c.chord_vocab_violated(pitches@));
        let ghost f2 = c.fired(
            "chord_quality_vocab"@,
            "ML_STYLE_CHORD_QUALITY_VOCAB"@,
            c.chord_quality_violated(pitches@),
        );
        let ghost f3 = c.fired("set_class_vocab"@, "ML_STYLE_SET_CLASS_VOCAB"@, c.set_class_violated(pitches@));
        let ghost f4 = c.fired("rhythm_vocab"@, "ML_STYLE_RHYTHM_VOCAB"@, c.rhythm_violated(duration));
        let ghost d0 = self.diagnostics@;
        self.check_chord_vocab(pitches, line, column, Some(span));
        let ghost d1 = self.diagnostics@;
        proof {
            lemma_fired_diags(c, d0, d1, "chord_vocab"@, "ML_STYLE_CHORD_VOCAB"@, c.chord_vocab_violated(pitches@));
            assert(d0.skip(d0.len() as int) =~= Seq::<Diagnostic>::empty());
            lemma_reports_extend(c, d0, d1, d0.len() as int, Seq::empty(), f1);
        }
        self.check_chord_quality_vocab(pitches, line, column, Some(span));
        let ghost d2 = self.diagnostics@;
        proof {
            lemma_fired_diags(
                c,
                d1,
                d2,
                "chord_quality_vocab"@,
                "ML_STYLE_CHORD_QUALITY_VOCAB"@,
                c.chord_quality_violated(pitches@),
            );
            lemma_reports_extend(c, d1, d2, d0.len() as int, Seq::empty() + f1, f2);
        }
        self.check_set_class_vocab(pitches, line, column, Some(span));
        let ghost d3 = self.diagnostics@;
        proof {
            lemma_fired_diags(c, d2, d3, "set_class_vocab"@, "ML_STYLE_SET_CLASS_VOCAB"@, c.set_class_violated(pitches@));
            lemma_reports_extend(c, d2, d3, d0.len() as int, Seq::empty() + f1 + f2, f3);
        }
        self.check_rhythm_vocab(duration, line, column, Some(span));
        let ghost d4 = self.diagnostics@;
        proof {
            lemma_fired_diags(c, d3, d4, "rhythm_vocab"@, "ML_STYLE_RHYTHM_VOCAB"@, c.rhythm_violated(duration));
            lemma_reports_extend(c, d3, d4, d0.len() as int, Seq::empty() + f1 + f2 + f3, f4);
            assert(Seq::empty() + f1 + f2 + f3 + f4 =~= c.chord_rules(pitches@, duration));
        }
    }

    fn compile_chord(&mut self, chord: &ChordStmt, track: &mut TrackBuilder)
        requires
            old(track).wf(),
        ensures
            old(self).only_diagnostics(*final(self)),
            final(track).wf(),
            chord_effect(old(self).variables@, *chord, *old(track), *final(track)),
            expr_model(old(self).variables@, chord.duration_expr) matches Some(ValueModel::Duration(d))
                ==> {
                let ps = chord_pitches(old(self).variables@, chord.pitch_exprs@);
                let rules = old(self).chord_rules(ps, d);
                let ds = final(self).diagnostics@;
                let e: int = if ps.len() == 0 {
                    1
                } else {
                    0
                };
                let n = ds.len() - e;
                &&& ds.len() >= old(self).diagnostics@.len() + rules.len() + e
                &&& old(self).reports_all(ds.subrange(n - rules.len(), n), rules)
                &&& (e == 1 ==> ds.last().code@ == "ML_CORE_CHORD"@)
            },
    {
        let ghost scopes = self.variables@;
        let mut pitches: Vec<Pitch> = Vec::new();
        let program = track.program();
        let mut i: usize = 0;
        proof {
            assert(chord.pitch_exprs@.take(0) =~= Seq::<Expr>::empty());
        }
        while i < chord.pitch_exprs.len()
            invariant
                old(self).only_diagnostics(*self),
                self.diagnostics@.len() >= old(self).diagnostics@.len(),
                scopes == old(self).variables@,
                i <= chord.pitch_exprs@.len(),
                pitches@ == chord_pitches(scopes, chord.pitch_exprs@.take(i as int)),
            decreases chord.pitch_exprs@.len() - i,
        {
            proof {
                assert(chord.pitch_exprs@.take(i + 1).drop_last() =~= chord.pitch_exprs@.take(i as int));
                assert(chord.pitch_exprs@.take(i + 1).last() == chord.pitch_exprs@[i as int]);
            }
            let ghost before = pitches@;
            match self.eval_expr(&chord.pitch_exprs[i], chord.line, chord.column) {
                Some(Value::Pitch(pitch)) => {
                    self.check_pitch_style(pitch, chord.line, chord.column, Some(chord.span));
                    self.check_instrument_range(program, pitch, chord.line, chord.column, Some(chord.span));
                    pitches.push(pitch);
                },
                Some(Value::List(values)) => {
                    let ghost ms = models(values@);
                    proof {
                        lemma_models_index(values@);
                        assert(ms.take(0) =~= Seq::<ValueModel>::empty());
                        assert(before + list_pitches(ms.take(0)) =~= before);
                    }
                    let mut k: usize = 0;
                    while k < values.len()
                        invariant
                            old(self).only_diagnostics(*self),
                            self.diagnostics@.len() >= old(self).diagnostics@.len(),
                            k <= values@.len(),
                            ms == models(values@),
                            ms.len() == values@.len(),
                            forall|j: int| 0 <= j < values@.len() ==> #[trigger] ms[j] == model(values@[j]),
                            pitches@ == before + list_pitches(ms.take(k as int)),
                        decreases values@.len() - k,
                    {
                        proof {
                            assert(ms.take(k + 1).drop_last() =~= ms.take(k as int));
                            assert(ms.take(k + 1).last() == ms[k as int]);
                        }
                        match &values[k] {
                            Value::Pitch(pitch) => {
                                self.check_pitch_style(*pitch, chord.line, chord.column, Some(chord.span));
                                self.check_instrument_range(
                                    program,
                                    *pitch,
                                    chord.line,
                                    chord.column,
                                    Some(chord.span),
                                );
                                pitches.push(*pitch);
                            },
                            _ => self.type_mismatch_at(chord),
                        }
                        proof {
                            assert(ms[k as int] == model(values@[k as int]));
                        }
                        k = k + 1;
                    }
                    proof {
                        assert(ms.take(k as int) =~= ms);
                    }
                },
                Some(_) => self.type_mismatch_at(chord),
                None => {},
            }
            i = i + 1;
        }
        let duration = match self.eval_duration(&chord.duration_expr, chord.line, chord.column) {
            Some(d) => d,
            None => return,
        };
        proof {
            assert(chord.pitch_exprs@.take(i as int) =~= chord.pitch_exprs@);
        }
        let ghost d0 = self.diagnostics@;
        let ghost pre = *self;
        self.check_chord_rules(&pitches, duration, chord.line, chord.column, chord.span);
        let ghost d4 = self.diagnostics@;
        proof {
            let o = *old(self);
            let rules = o.chord_rules(pitches@, duration);
            assert(pre.chord_rules(pitches@, duration) == rules);
            let sub = d4.skip(d0.len() as int);
            assert forall|k: int| 0 <= k < sub.len() implies o.reports(#[trigger] sub[k], rules[k].0, rules[k].1) by {
                assert(pre.reports(sub[k], rules[k].0, rules[k].1));
            }
            assert(sub =~= d4.subrange(d0.len() as int, d4.len() as int));
            assert(pitches@ == chord_pitches(o.variables@, chord.pitch_exprs@));
        }
        let ghost ps = pitches@;
        match Chord::new(pitches, duration) {
            Ok(c) => {
                let ghost t0 = *track;
                track.push_chord(c, Some(chord.span));
                proof {
                    assert(track.events_spec() =~= t0.events_spec() + Seq::new(
                        ps.len(),
                        |k: int|
                            t0.event_at(ps[k], t0.cursor_spec(), t0.ticks_for(duration), Some(chord.span)),
                    ));
                }
            },
            Err(e) => {
                self.push_error(
                    Diagnostic::error(
                        "ML_CORE_CHORD",
                        e.message().as_str(),
                        chord.line,
                        chord.column,
                    ).with_span(chord.span),
                );
                assert(self.diagnostics@.drop_last() =~= d4);
                assert(self.diagnostics@.subrange(d0.len() as int, d4.len() as int) =~= d4.subrange(
                    d0.len() as int,
                    d4.len() as int,
                ));
            },
        }
    }

    fn unknown_rule_error(&mut self, override_stmt: &OverrideStmt)
        ensures
            old(self).only_diagnostics(*final(self)),
            one_more(old(self).diagnostics@, final(self).diagnostics@),
            spanned_error(
                final(self).diagnostics@.last(),
                "ML_STYLE_UNKNOWN_RULE"@,
                "unknown style rule `"@ + override_stmt.rule@ + "`"@,
                override_stmt.span,
            ),
            final(self).diagnostics@.last().rule matches Some(x) && x@ == override_stmt.rule@,
            final(self).diagnostics@.last().style matches Some(x) && x@ == old(self).style.name@,
    {
        let m = concat3("unknown style rule `", override_stmt.rule.as_str(), "`");
        let d = Diagnostic::error(
            "ML_STYLE_UNKNOWN_RULE",
            m.as_str(),
            override_stmt.line,
            override_stmt.column,
        ).with_span(override_stmt.span).with_rule(override_stmt.rule.as_str()).with_style(
            self.style.name.as_str(),
        );
        self.diagnostics.push(d);
        assert(self.diagnostics@.drop_last() =~= old(self).diagnostics@);
    }

    fn record_override(&mut self, override_stmt: &OverrideStmt)
        ensures
            final(self).override_rules@.len() == old(self).override_rules@.len() + 1,
            final(self).markers == old(self).markers,
            final(self).override_traces@.len() == old(self).override_traces@.len() + 1,
            final(self).override_traces@.drop_last() == old(self).override_traces@,
            traces(final(self).override_traces@.last(), *override_stmt),
            final(self).functions == old(self).functions,
            final(self).active == old(self).active,
            final(self).variables == old(self).variables,
    {
        self.override_rules.push(override_stmt.rule.clone());
        self.override_traces.push(
            OverrideTrace {
                rule: override_stmt.rule.clone(),
                reason: match &override_stmt.reason {
                    Some(r) => Some(r.clone()),
                    None => None,
                },
                line: override_stmt.line,
                column: override_stmt.column,
            },
        );
        assert(self.override_traces@.drop_last() =~= old(self).override_traces@);
    }

    fn find_style_index(program: &Program, name: &str) -> (r: Option<usize>)
        ensures
            r matches Some(i) ==> i < program.styles@.len() && program.styles@[i as int].name@ == name@
                && forall|j: int| 0 <= j < i ==> (#[trigger] program.styles@[j]).name@ != name@,
            r is None ==> forall|j: int|
                0 <= j < program.styles@.len() ==> (#[trigger] program.styles@[j]).name@ != name@,
    {
        let mut i: usize = 0;
        while i < program.styles.len()
            invariant
                i <= program.styles@.len(),
                forall|j: int| 0 <= j < i ==> (#[trigger] program.styles@[j]).name@ != name@,
            decreases program.styles@.len() - i,
        {
            if str_eq(program.styles[i].name.as_str(), name) {
                return Some(i);
            }
            i = i + 1;
        }
        None
    }

    fn style_context_by_name(
        &mut self,
        program: &Program,
        name: &str,
        line: usize,
        column: usize,
        span: Option<Span>,
    ) -> (r: Option<StyleContext>)
        ensures
            old(self).only_diagnostics(*final(self)),
            r is None <==> forall|j: int|
                0 <= j < program.styles@.len() ==> (#[trigger] program.styles@[j]).name@ != name@,
            r is None ==> one_more(old(self).diagnostics@, final(self).diagnostics@)
                && final(self).diagnostics@.last().code@ == "ML_STYLE_UNKNOWN_NAME"@
                && final(self).diagnostics@.last().severity == Severity::Error
                && final(self).diagnostics@.last().message@ == "unknown style `"@ + name@ + "`"@,
            r matches Some(st) ==> exists|i: int|
                0 <= i < program.styles@.len() && (#[trigger] program.styles@[i]).name@ == name@
                    && (forall|j: int| 0 <= j < i ==> (#[trigger] program.styles@[j]).name@ != name@)
                    && style_model(st) == chain_model(
                    old(self).catalog,
                    built_in_model(style_chain(program.styles@, program.styles@[i]).1.name@),
                    style_chain(program.styles@, program.styles@[i]).0,
                ),
            r matches Some(st) ==> st.name@ == name@ && final(self).diagnostics@.take(
                old(self).diagnostics@.len() as int,
            ) == old(self).diagnostics@,
    {
        let i = match Compiler::find_style_index(program, name) {
            Some(i) => i,
            None => {
                let m = concat3("unknown style `", name, "`");
                let mut d = Diagnostic::error("ML_STYLE_UNKNOWN_NAME", m.as_str(), line, column);
                match span {
                    Some(s) => d = d.with_span(s),
                    None => {},
                }
                self.diagnostics.push(d);
                assert(self.diagnostics@.drop_last() =~= old(self).diagnostics@);
                return None;
            },
        };
        let (style, ds) = style_from_program(&self.catalog, program, &program.styles[i]);
        let mut k: usize = 0;
        while k < ds.len()
            invariant
                old(self).only_diagnostics(*self),
                self.diagnostics@.len() >= old(self).diagnostics@.len(),
                self.diagnostics@.take(old(self).diagnostics@.len() as int) == old(self).diagnostics@,
            decreases ds@.len() - k,
        {
            let ghost before = self.diagnostics@;
            self.diagnostics.push(ds[k].clone());
            assert(self.diagnostics@.take(old(self).diagnostics@.len() as int) =~= before.take(
                old(self).diagnostics@.len() as int,
            ));
            k = k + 1;
        }
        assert(program.styles@[i as int].name@ == name@);
        Some(style)
    }

    fn unsupported_statement(&mut self, word: &str, line: usize, column: usize, span: Span)
        ensures
            old(self).only_diagnostics(*final(self)),
            one_more(old(self).diagnostics@, final(self).diagnostics@),
            spanned_error(
                final(self).diagnostics@.last(),
                "ML_EVAL_UNSUPPORTED_OP"@,
                "unsupported statement `"@ + word@ + "`"@,
                span,
            ),
    {
        let m = concat3("unsupported statement `", word, "`");
        self.push_error(
            Diagnostic::error("ML_EVAL_UNSUPPORTED_OP", m.as_str(), line, column).with_span(span),
        );
        assert(self.diagnostics@.drop_last() =~= old(self).diagnostics@);
    }

    fn compile_voice(&mut self, program: &Program, voice: &VoiceDecl, track: &mut TrackBuilder)
        requires
            old(self).inv(program),
            old(track).wf(),
        ensures
            old(self).frame(*final(self), program),
            final(track).wf(),
            exists|cs: Seq<Compiler>, ts: Seq<TrackBuilder>|
                runs_through(*program, cs, ts, voice.statements@) && cs[0] == *old(self) && ts[0] == *old(track)
                    && ts.last() == *final(track) && final(self).diagnostics@.take(
                    cs.last().diagnostics@.len() as int,
                ) == cs.last().diagnostics@,
        decreases inactive_count(old(self).active@), voice, 2nat,
    {
        let pending_start = self.pending_non_chord_tones.len();
        proof {
            assert(decreases_to!(*voice => voice.statements));
        }
        self.compile_statements(program, &voice.statements, track);
        let ghost mid = self.diagnostics@;
        self.check_pending_non_chord_tones(track, pending_start);
        let ghost mid2 = self.diagnostics@;
        self.check_melodic_leap(track, voice.line, voice.column);
        proof {
            if mid2 != self.diagnostics@ {
                assert(self.diagnostics@.take(mid2.len() as int) =~= self.diagnostics@.drop_last());
            } else {
                assert(self.diagnostics@.take(mid2.len() as int) =~= mid2);
            }
            assert forall|k: int| 0 <= k < mid.len() implies self.diagnostics@[k] == mid[k] by {
                assert(mid2.take(mid.len() as int)[k] == mid[k]);
                assert(self.diagnostics@.take(mid2.len() as int)[k] == mid2[k]);
            }
            assert(self.diagnostics@.take(mid.len() as int) =~= mid);
        }
    }

    fn compile_statements(&mut self, program: &Program, statements: &Vec<Stmt>, track: &mut TrackBuilder)
        requires
            old(self).inv(program),
            old(track).wf(),
        ensures
            old(self).frame(*final(self), program),
            final(track).wf(),
            exists|cs: Seq<Compiler>, ts: Seq<TrackBuilder>|
                runs_through(*program, cs, ts, statements@) && cs[0] == *old(self) && cs.last() == *final(self)
                    && ts[0] == *old(track) && ts.last() == *final(track),
        decreases inactive_count(old(self).active@), statements, 0nat,
    {
        let ghost mut cs: Seq<Compiler> = seq![*self];
        let ghost mut ts: Seq<TrackBuilder> = seq![*track];
        let mut i: usize = 0;
        while i < statements.len()
            invariant
                old(self).frame(*self, program),
                track.wf(),
                i <= statements@.len(),
                runs_through(*program, cs, ts, statements@.take(i as int)),
                cs[0] == *old(self),
                ts[0] == *old(track),
                cs.last() == *self,
                ts.last() == *track,
            decreases statements@.len() - i,
        {
            proof {
                assert(decreases_to!(*statements => statements@));
                assert(decreases_to!(statements@ => statements@[i as int]));
            }
            let ghost c0 = *self;
            let ghost t0 = *track;
            self.compile_statement(program, &statements[i], track);
            proof {
                let prev_cs = cs;
                let prev_ts = ts;
                cs = cs.push(*self);
                ts = ts.push(*track);
                assert forall|k: int| 0 <= k < i + 1 implies statement_effect(
                    *program,
                    cs[k],
                    cs[k + 1],
                    #[trigger] statements@.take(i + 1)[k],
                    ts[k],
                    ts[k + 1],
                ) by {
                    if k < i {
                        assert(statements@.take(i + 1)[k] == statements@.take(i as int)[k]);
                        assert(cs[k] == prev_cs[k] && cs[k + 1] == prev_cs[k + 1]);
                        assert(ts[k] == prev_ts[k] && ts[k + 1] == prev_ts[k + 1]);
                    } else {
                        assert(cs[k] == c0 && ts[k] == t0);
                    }
                }
            }
            i = i + 1;
        }
        proof {
            assert(statements@.take(i as int) =~= statements@);
        }
    }

    fn compile_statement(&mut self, program: &Program, statement: &Stmt, track: &mut TrackBuilder)
        requires
            old(self).inv(program),
            old(track).wf(),
        ensures
            old(self).frame(*final(self), program),
            final(track).wf(),
            statement_effect(*program, *old(self), *final(self), *statement, *old(track), *final(track)),
        decreases inactive_count(old(self).active@), statement, 1nat,
    {
        match statement {
            Stmt::Voice(voice) => self.compile_voice(program, voice, track),
            Stmt::Note(note) => self.compile_note(note, track),
            Stmt::Chord(chord) => self.compile_chord(chord, track),
            Stmt::Rest(rest) => {
                match self.eval_duration(&rest.duration_expr, rest.line, rest.column) {
                    Some(d) => track.advance(d),
                    None => {},
                }
            },
            Stmt::Degree(s) => self.unsupported_statement("degree", s.line, s.column, s.span),
            Stmt::Pedal(s) => self.unsupported_statement("pedal", s.line, s.column, s.span),
            Stmt::Ostinato(s) => self.unsupported_statement("ostinato", s.line, s.column, s.span),
            Stmt::Sequence(s) => self.unsupported_statement("sequence", s.line, s.column, s.span),
            Stmt::Transpose(s) => self.unsupported_statement("transpose", s.line, s.column, s.span),
            Stmt::Roman(s) => self.unsupported_statement("roman", s.line, s.column, s.span),
            Stmt::Progression(s) => self.unsupported_statement("progression", s.line, s.column, s.span),
            Stmt::Cadence(s) => self.unsupported_statement("cadence", s.line, s.column, s.span),
            Stmt::Modulate(s) => self.unsupported_statement("modulate", s.line, s.column, s.span),
            Stmt::Dynamic(dynamic) => {
                self.check_dynamic_vocab(dynamic);
                match dynamic_velocity(&self.catalog, dynamic.mark.as_str()) {
                    Some(v) => track.set_velocity(v),
                    None => {},
                }
            },
            Stmt::Velocity(v) => track.set_velocity(v.velocity),
            Stmt::Articulation(a) => {
                self.check_articulation_vocab(a);
                track.set_articulation(a.mark.as_str());
            },
            Stmt::Section(section) => {
                self.section_labels.push(section.label.clone());
                self.markers.push(MarkerIr { label: section.label.clone(), tick: track.cursor_tick() });
                assert(forall|k: int|
                    0 <= k < old(self).markers@.len() ==> self.markers@[k] == #[trigger] old(self).markers@[k]);
                let ghost n = old(self).markers@.len() as int;
                let ghost mid = self.markers@;
                assert(mid[n].label@ == section.label@ && mid[n].tick == old(track).cursor_spec());
                proof {
                    assert(decreases_to!(*statement => section.statements));
                }
                self.compile_statements(program, &section.statements, track);
                assert(self.markers@[n] == mid[n]);
            },
            Stmt::Ornament(ornament) => {
                self.check_ornament(ornament.kind.as_str(), ornament.line, ornament.column);
                let event_start = track.event_count();
                proof {
                    assert(decreases_to!(*statement => ornament.statements));
                }
                self.compile_statements(program, &ornament.statements, track);
                let events = track.events();
                if event_start <= events.len() {
                    let tail = vstd::slice::slice_subrange(events, event_start, events.len());
                    self.check_ornament_pattern(
                        ornament.kind.as_str(),
                        tail,
                        ornament.line,
                        ornament.column,
                    );
                }
            },
            Stmt::NonChordTone(tone) => {
                self.check_non_chord_tone(tone.kind.as_str(), tone.line, tone.column);
                let count = track.event_count();
                let previous_event_index = if count > 0 {
                    Some(count - 1)
                } else {
                    None
                };
                proof {
                    assert(decreases_to!(*statement => tone.statements));
                }
                self.compile_statements(program, &tone.statements, track);
                self.pending_non_chord_tones.push(
                    PendingNonChordTone {
                        kind: tone.kind.clone(),
                        previous_event_index,
                        event_start: count,
                        event_end: track.event_count(),
                        line: tone.line,
                        column: tone.column,
                    },
                );
            },
            Stmt::TuningSystem(s) => {
                self.check_tuning_system(s.kind.as_str(), s.line, s.column);
                proof {
                    assert(decreases_to!(*statement => s.statements));
                }
                self.compile_statements(program, &s.statements, track);
            },
            Stmt::WorldTradition(s) => {
                self.check_world_tradition(s.kind.as_str(), s.line, s.column);
                proof {
                    assert(decreases_to!(*statement => s.statements));
                }
                self.compile_statements(program, &s.statements, track);
            },
            Stmt::HistoricalEra(s) => {
                self.check_historical_era(s.kind.as_str(), s.line, s.column);
                proof {
                    assert(decreases_to!(*statement => s.statements));
                }
                self.compile_statements(program, &s.statements, track);
            },
            Stmt::HarmonicFunction(s) => {
                self.check_harmonic_function(s.kind.as_str(), s.line, s.column);
                proof {
                    assert(decreases_to!(*statement => s.statements));
                }
                self.compile_statements(program, &s.statements, track);
            },
            Stmt::For(for_stmt) => {
                let mut value: i64 = for_stmt.start as i64;
                let ghost mut runs: Seq<(Compiler, TrackBuilder, TrackBuilder)> = Seq::empty();
                proof {
                    assert(decreases_to!(*statement => for_stmt.statements));
                }
                while value < for_stmt.end as i64
                    invariant
                        old(self).frame(*self, program),
                        track.wf(),
                        value >= for_stmt.start,
                        value <= if for_stmt.end > for_stmt.start {
                            for_stmt.end as i64
                        } else {
                            for_stmt.start as i64
                        },
                        decreases_to!(*statement => for_stmt.statements),
                        runs.len() == value - for_stmt.start,
                        forall|k: int|
                            0 <= k < runs.len() ==> lookup((#[trigger] runs[k]).0.variables@, for_stmt.variable@)
                                == Some(Value::Int((for_stmt.start + k) as i32)) && runs[k].0.variables@.len()
                                == old(self).variables@.len() + 1,
                        forall|k: int| 0 <= k < runs.len() - 1 ==> (#[trigger] runs[k]).2 == runs[k + 1].1,
                        runs.len() == 0 ==> *track == *old(track),
                        runs.len() > 0 ==> runs[0].1 == *old(track) && runs.last().2 == *track,
                    decreases for_stmt.end - value,
                {
                    let ghost t_start = *track;
                    self.push_scope();
                    self.set_var(for_stmt.variable.as_str(), Value::Int(value as i32));
                    let ghost c_start = *self;
                    self.compile_statements(program, &for_stmt.statements, track);
                    proof {
                        let prev = runs;
                        runs = runs.push((c_start, t_start, *track));
                        assert forall|k: int| 0 <= k < runs.len() implies lookup(
                            (#[trigger] runs[k]).0.variables@,
                            for_stmt.variable@,
                        ) == Some(Value::Int((for_stmt.start + k) as i32)) && runs[k].0.variables@.len()
                            == old(self).variables@.len() + 1 by {
                            if k < prev.len() {
                                assert(runs[k] == prev[k]);
                            }
                        }
                        assert forall|k: int| 0 <= k < runs.len() - 1 implies (#[trigger] runs[k]).2 == runs[k
                            + 1].1 by {
                            if k < prev.len() - 1 {
                                assert(runs[k] == prev[k] && runs[k + 1] == prev[k + 1]);
                            } else {
                                assert(runs[k] == prev[k]);
                            }
                        }
                    }
                    self.pop_scope();
                    value = value + 1;
                }
                proof {
                    assert(for_runs(*old(self), *for_stmt, runs, *old(track), *track));
                }
            },
            Stmt::If(if_stmt) => {
                match self.eval_bool(&if_stmt.condition, if_stmt.line, if_stmt.column) {
                    Some(true) => {
                        proof {
                            assert(decreases_to!(*statement => if_stmt.statements));
                        }
                        self.compile_statements(program, &if_stmt.statements, track);
                    },
                    _ => {},
                }
            },
            Stmt::Let(let_stmt) => {
                match self.eval_expr(&let_stmt.value_expr, let_stmt.line, let_stmt.column) {
                    Some(value) => {
                        let ghost m = model(value);
                        self.set_var(let_stmt.name.as_str(), value);
                    },
                    None => {},
                }
            },
            Stmt::Call(call) => {
                let name = call.name.as_str();
                let position = match self.function_position(program, name) {
                    Some(p) => p,
                    None => {
                        let m = concat3("unknown function `", name, "`");
                        self.push_error(
                            Diagnostic::error(
                                "ML_RESOLVE_UNKNOWN_NAME",
                                m.as_str(),
                                call.line,
                                call.column,
                            ).with_span(call.span),
                        );
                        assert(self.diagnostics@.drop_last() =~= old(self).diagnostics@);
                        return;
                    },
                };
                if self.active[position] {
                    let m = concat3("recursive function call `", name, "`");
                    self.push_error(
                        Diagnostic::error(
                            "ML_RESOLVE_RECURSIVE_CALL",
                            m.as_str(),
                            call.line,
                            call.column,
                        ).with_span(call.span),
                    );
                    assert(self.diagnostics@.drop_last() =~= old(self).diagnostics@);
                    assert forall|i: int|
                        #[trigger] first_function_named(*program, old(self).functions@, call.name@, i)
                            implies i == position by {
                        if i < position {
                            assert(program.functions@[old(self).functions@[i] as int].name@ == name@);
                        }
                    }
                    return;
                }
                let ghost before = self.active@;
                self.active.set(position, true);
                proof {
                    lemma_activate(before, position as int);
                }
                self.push_scope();
                let f = self.functions[position];
                self.compile_statements(program, &program.functions[f].statements, track);
                self.pop_scope();
                self.active.set(position, false);
                assert(self.active@ =~= before);
            },
            Stmt::Override(o) => {
                if !self.is_known_rule(o.rule.as_str()) {
                    self.unknown_rule_error(o);
                    return;
                }
                self.record_override(o);
                let ghost mid = self.override_traces@;
                let start_event = track.event_count();
                proof {
                    assert(decreases_to!(*statement => o.statements));
                    assert(mid[old(self).override_traces@.len() as int] == mid.last());
                }
                self.compile_statements(program, &o.statements, track);
                assert(self.override_traces@[old(self).override_traces@.len() as int] == mid[old(
                    self,
                ).override_traces@.len() as int]);
                if start_event <= track.event_count() {
                    track.mark_rule_override(start_event, o.rule.as_str());
                }
                self.override_rules.pop();
            },
            Stmt::WithStyle(with_style) => {
                let style = match self.style_context_by_name(
                    program,
                    with_style.style.as_str(),
                    with_style.line,
                    with_style.column,
                    Some(with_style.span),
                ) {
                    Some(s) => s,
                    None => return,
                };
                let mut previous = style;
                std::mem::swap(&mut self.style, &mut previous);
                proof {
                    assert(decreases_to!(*statement => with_style.statements));
                }
                self.compile_statements(program, &with_style.statements, track);
                self.style = previous;
            },
        }
    }

    fn function_position(&self, program: &Program, name: &str) -> (r: Option<usize>)
        requires
            self.inv(program),
        ensures
            r matches Some(i) ==> i < self.functions@.len() && program.functions@[self.functions@[i as int] as int].name@
                == name@ && forall|j: int|
                0 <= j < i ==> program.functions@[(#[trigger] self.functions@[j]) as int].name@ != name@,
            r is None ==> forall|j: int|
                0 <= j < self.functions@.len() ==> program.functions@[(#[trigger] self.functions@[j]) as int].name@
                    != name@,
    {
        let mut i: usize = 0;
        while i < self.functions.len()
            invariant
                self.inv(program),
                i <= self.functions@.len(),
                forall|j: int|
                    0 <= j < i ==> program.functions@[(#[trigger] self.functions@[j]) as int].name@ != name@,
            decreases self.functions@.len() - i,
        {
            let f = self.functions[i];
            if str_eq(program.functions[f].name.as_str(), name) {
                return Some(i);
            }
            i = i + 1;
        }
        None
    }

    /// Compiles the statements of an override that holds voices, each voice into a track of its own.
    fn compile_override_tracks(&mut self, program: &Program, o: &OverrideStmt, tracks: &mut Vec<TrackIr>)
        requires
            old(self).inv(program),
            forall|t: int| 0 <= t < old(tracks)@.len() ==> tracks_ok(#[trigger] old(tracks)@[t]),
        ensures
            old(self).frame(*final(self), program),
            forall|t: int| 0 <= t < final(tracks)@.len() ==> tracks_ok(#[trigger] final(tracks)@[t]),
            ({
                let known = built_in_rule(o.rule@) || exists|i: int|
                    0 <= i < old(self).style.custom_rules@.len()
                        && (#[trigger] old(self).style.custom_rules@[i]).id@ == o.rule@;
                &&& !known ==> final(tracks)@ == old(tracks)@ && one_more(
                    old(self).diagnostics@,
                    final(self).diagnostics@,
                ) && final(self).diagnostics@.last().code@ == "ML_STYLE_UNKNOWN_RULE"@
                &&& known ==> final(tracks)@.take(old(tracks)@.len() as int) == old(tracks)@
                    && old(tracks)@.len() + voice_count(o.statements@) <= final(tracks)@.len()
                    <= old(tracks)@.len() + o.statements@.len()
            }),
    {
        if !self.is_known_rule(o.rule.as_str()) {
            self.unknown_rule_error(o);
            return;
        }
        let ghost n0 = tracks@.len();
        let ghost t0 = tracks@;
        self.record_override(o);
        if !text_list_contains(&self.score_override_rules, o.rule.as_str()) {
            self.score_override_rules.push(o.rule.clone());
        }
        let mut i: usize = 0;
        proof {
            assert(o.statements@.take(0) =~= Seq::<Stmt>::empty());
            assert(tracks@.take(n0 as int) =~= t0);
        }
        while i < o.statements.len()
            invariant
                old(self).frame(*self, program),
                forall|t: int| 0 <= t < tracks@.len() ==> tracks_ok(#[trigger] tracks@[t]),
                i <= o.statements@.len(),
                n0 == old(tracks)@.len(),
                t0 == old(tracks)@,
                tracks@.len() >= n0,
                tracks@.take(n0 as int) == t0,
                n0 + voice_count(o.statements@.take(i as int)) <= tracks@.len() <= n0 + i,
            decreases o.statements@.len() - i,
        {
            proof {
                assert(o.statements@.take(i + 1).drop_last() =~= o.statements@.take(i as int));
                assert(o.statements@.take(i + 1).last() == o.statements@[i as int]);
            }
            let ghost before = tracks@;
            match &o.statements[i] {
                Stmt::Voice(voice) => {
                    let mut track = TrackBuilder::new(voice.name.as_str(), voice.program, None, voice.volume, voice.pan);
                    self.compile_voice(program, voice, &mut track);
                    tracks.push(track.finish());
                },
                other => {
                    let mut track = TrackBuilder::new("main", None, None, None, None);
                    self.compile_statement(program, other, &mut track);
                    if !track.is_empty() {
                        tracks.push(track.finish());
                    }
                },
            }
            proof {
                assert(tracks@.take(n0 as int) =~= before.take(n0 as int));
            }
            i = i + 1;
        }
        proof {
            assert(o.statements@.take(i as int) =~= o.statements@);
        }
        self.override_rules.pop();
    }

    fn any_error(&self) -> (r: bool)
        ensures
            r == has_error(self.diagnostics@),
    {
        let mut i: usize = 0;
        while i < self.diagnostics.len()
            invariant
                i <= self.diagnostics@.len(),
                forall|k: int| 0 <= k < i ==> (#[trigger] self.diagnostics@[k]).severity != Severity::Error,
            decreases self.diagnostics@.len() - i,
        {
            match self.diagnostics[i].severity {
                Severity::Error => return true,
                _ => {},
            }
            i = i + 1;
        }
        false
    }

    fn compile(self, program: &Program) -> (r: Result<Compilation, Vec<Diagnostic>>)
        requires
            self.inv(program),
        ensures
            r matches Ok(c) ==> !has_error(c.diagnostics@) && well_lowered(c.ir) && c.ir.tempo_changes@.len() == 0,
            r matches Ok(c) ==> (c.ir.tempo_bpm, c.ir.meter, c.ir.key, c.ir.title@, match c.ir.composer {
                Some(x) => Some(x@),
                None => None,
            }) == metadata_after(program.score.metadata@, program.score.name@),
            r matches Err(ds) ==> has_error(ds@),
    {
        let mut this = self;
        let mut tracks: Vec<TrackIr> = Vec::new();
        let (tempo_bpm, meter, key, title, composer) = score_metadata(program);
        this.check_score_style(tempo_bpm, meter);
        let statements = &program.score.statements;
        let mut i: usize = 0;
        while i < statements.len()
            invariant
                this.inv(program),
                forall|t: int| 0 <= t < tracks@.len() ==> tracks_ok(#[trigger] tracks@[t]),
            decreases statements@.len() - i,
        {
            match &statements[i] {
                Stmt::Voice(voice) => {
                    let mut track = TrackBuilder::new(voice.name.as_str(), voice.program, None, voice.volume, voice.pan);
                    this.compile_voice(program, voice, &mut track);
                    tracks.push(track.finish());
                },
                Stmt::Override(o) => {
                    if has_voice(&o.statements) {
                        this.compile_override_tracks(program, o, &mut tracks);
                    } else {
                        let mut track = TrackBuilder::new("main", None, None, None, None);
                        this.compile_statement(program, &statements[i], &mut track);
                        if !track.is_empty() {
                            tracks.push(track.finish());
                        }
                    }
                },
                other => {
                    let mut track = TrackBuilder::new("main", None, None, None, None);
                    this.compile_statement(program, other, &mut track);
                    if !track.is_empty() {
                        tracks.push(track.finish());
                    }
                },
            }
            i = i + 1;
        }
        this.check_counterpoint_rules(&tracks);
        this.check_texture(&tracks);
        this.check_rhythm_concepts(&tracks);
        this.check_form();
        this.check_harmonic_progression(&tracks);
        this.check_cadence(&tracks);
        if this.any_error() {
            return Err(this.diagnostics);
        }
        let ir = ScoreIr {
            title,
            composer,
            ticks_per_quarter: DEFAULT_TICKS_PER_QUARTER,
            tempo_bpm,
            meter,
            key,
            tracks,
            markers: this.markers,
            tempo_changes: Vec::new(),
            meter_changes: Vec::new(),
            key_changes: Vec::new(),
            overrides: this.override_traces,
        };
        Ok(Compilation { ir, diagnostics: this.diagnostics })
    }
}

/// Compiles a source text into a score and the warnings it gave, or the errors.
pub fn compile_source_with_diagnostics(source: &str) -> (r: Result<Compilation, Vec<Diagnostic>>)
    requires
        4 * source@.len() + 4 < usize::MAX,
    ensures
        r matches Ok(c) ==> !has_error(c.diagnostics@) && well_lowered(c.ir),
        r matches Err(ds) ==> has_error(ds@),
{
    let program = match parse_source(source) {
        Ok(p) => p,
        Err(ds) => {
            if ds.len() > 0 {
                assert(lex_diagnostic(ds@[0]) || parse_diagnostic(ds@[0]));
            }
            return Err(ds);
        },
    };
    let compiler = Compiler::new(&program);
    compiler.compile(&program)
}

/// Compiles a source text into a score, or the diagnostics that stopped it.
pub fn compile_source(source: &str) -> (r: Result<ScoreIr, Vec<Diagnostic>>)
    requires
        4 * source@.len() + 4 < usize::MAX,
    ensures
        r matches Ok(ir) ==> well_lowered(ir),
        r matches Err(ds) ==> has_error(ds@),
{
    match compile_source_with_diagnostics(source) {
        Ok(c) => Ok(c.ir),
        Err(ds) => Err(ds),
    }
}

/// The diagnostics of a source text: the warnings of a successful compilation, or the errors.
pub fn diagnose_source(source: &str) -> (r: Vec<Diagnostic>)
    requires
        4 * source@.len() + 4 < usize::MAX,
{
    match compile_source_with_diagnostics(source) {
        Ok(c) => c.diagnostics,
        Err(ds) => ds,
    }
}

} // verus!
