use vstd::prelude::*;

use crate::diagnostic::{diagnostic_text, Diagnostic, DiagnosticLabel, DiagnosticRelated, Span};
use crate::ir::OverrideTrace;
use crate::text::{
    append, concat, concat3, decimal, owned, push_char, split_char, split_char_spec, split_once,
    split_once_spec, str_eq, trim, trim_seq, u64_text, views,
};
use crate::theory::{TheoryDomain, TheoryEntry};

verus! {

/// The settings of a project's `music.toml`.
#[derive(Debug, Clone, PartialEq, Eq)]
pub struct ProjectManifest {
    pub name: String,
    pub source: String,
    pub output: String,
    pub format: String,
}

impl Default for ProjectManifest {
    fn default() -> (r: ProjectManifest)
        ensures
            r.name@ == "music-project"@,
            r.source@ == "src/main.music"@,
            r.output@ == "build/main.mid"@,
            r.format@ == "midi"@,
    {
        ProjectManifest {
            name: owned("music-project"),
            source: owned("src/main.music"),
            output: owned("build/main.mid"),
            format: owned("midi"),
        }
    }
}

/// The number of `"` at the start of a text.
pub open spec fn lead_quotes(s: Seq<char>) -> nat
    decreases s.len(),
{
    if s.len() > 0 && s[0] == '"' {
        1 + lead_quotes(s.drop_first())
    } else {
        0
    }
}

/// The number of `"` at the end of a text.
pub open spec fn trail_quotes(s: Seq<char>) -> nat
    decreases s.len(),
{
    if s.len() > 0 && s.last() == '"' {
        1 + trail_quotes(s.drop_last())
    } else {
        0
    }
}

/// A text without the `"` at either end.
pub open spec fn unquoted(s: Seq<char>) -> Seq<char> {
    let t = s.skip(lead_quotes(s) as int);
    t.take(t.len() - trail_quotes(t))
}

proof fn lemma_lead_quotes(s: Seq<char>, i: int)
    requires
        0 <= i <= s.len(),
        forall|k: int| 0 <= k < i ==> s[k] == '"',
        i == s.len() || s[i] != '"',
    ensures
        lead_quotes(s) == i,
    decreases i,
{
    if i > 0 {
        lemma_lead_quotes(s.drop_first(), i - 1);
    }
}

proof fn lemma_trail_quotes(s: Seq<char>, i: int)
    requires
        0 <= i <= s.len(),
        forall|k: int| s.len() - i <= k < s.len() ==> s[k] == '"',
        i == s.len() || s[s.len() - 1 - i] != '"',
    ensures
        trail_quotes(s) == i,
    decreases i,
{
    if i > 0 {
        lemma_trail_quotes(s.drop_last(), i - 1);
    }
}

proof fn lemma_quotes_bounded(s: Seq<char>)
    ensures
        lead_quotes(s) <= s.len(),
        trail_quotes(s) <= s.len(),
    decreases s.len(),
{
    if s.len() > 0 {
        lemma_quotes_bounded(s.drop_first());
        lemma_quotes_bounded(s.drop_last());
    }
}

/// A text without the `"` at either end.
pub fn trim_quotes(value: &str) -> (r: String)
    ensures
        r@ == unquoted(value@),
{
    let chars = crate::text::chars_of(value);
    let n = chars.len();
    let mut a: usize = 0;
    while a < n && chars[a] == '"'
        invariant
            n == chars@.len(),
            chars@ == value@,
            a <= n,
            forall|k: int| 0 <= k < a ==> chars@[k] == '"',
        decreases n - a,
    {
        a = a + 1;
    }
    proof {
        lemma_lead_quotes(value@, a as int);
    }
    let ghost t = value@.skip(a as int);
    let mut b: usize = n;
    while b > a && chars[b - 1] == '"'
        invariant
            n == chars@.len(),
            chars@ == value@,
            a <= b <= n,
            forall|k: int| b <= k < n ==> chars@[k] == '"',
        decreases b,
    {
        b = b - 1;
    }
    proof {
        assert(t.len() == n - a);
        lemma_trail_quotes(t, (n - b) as int);
    }
    let r = crate::text::string_from_chars(&chars, a, b);
    assert(r@ =~= unquoted(value@));
    r
}

/// The settings a manifest line (`key = value`) gives, in order: a later line wins.
/// Where a `#` comment starts in a line, looking from `i` on: the first `#` outside double
/// quotes, or the end of the line.
pub open spec fn comment_start(line: Seq<char>, i: int, quoted: bool) -> int
    decreases line.len() - i,
{
    if i < 0 || i >= line.len() {
        line.len() as int
    } else if line[i] == '#' && !quoted {
        i
    } else {
        comment_start(line, i + 1, if line[i] == '"' {
            !quoted
        } else {
            quoted
        })
    }
}

/// A manifest line without its `#` comment.
pub open spec fn without_comment(line: Seq<char>) -> Seq<char> {
    line.take(comment_start(line, 0, false))
}

/// A manifest line cut at its `#` comment.
fn strip_comment(line: &str) -> (r: String)
    ensures
        r@ == without_comment(line@),
{
    let v = crate::text::chars_of(line);
    let mut quoted = false;
    let mut i: usize = 0;
    while i < v.len()
        invariant
            v@ == line@,
            i <= v@.len(),
            comment_start(line@, 0, false) == comment_start(line@, i as int, quoted),
        ensures
            i <= v@.len(),
            comment_start(line@, 0, false) == i,
        decreases v@.len() - i,
    {
        if v[i] == '#' && !quoted {
            break;
        }
        if v[i] == '"' {
            quoted = !quoted;
        }
        i = i + 1;
    }
    crate::text::string_from_chars(&v, 0, i)
}

pub open spec fn manifest_apply(m: (Seq<char>, Seq<char>, Seq<char>, Seq<char>), line: Seq<char>) -> (
    Seq<char>,
    Seq<char>,
    Seq<char>,
    Seq<char>,
) {
    match split_once_spec(without_comment(line), '=') {
        Some((k, v)) => {
            let key = trim_seq(k);
            let value = unquoted(trim_seq(v));
            if key == "name"@ {
                (value, m.1, m.2, m.3)
            } else if key == "source"@ {
                (m.0, value, m.2, m.3)
            } else if key == "output"@ {
                (m.0, m.1, value, m.3)
            } else if key == "format"@ {
                (m.0, m.1, m.2, value)
            } else {
                m
            }
        },
        None => m,
    }
}

/// The settings after the given lines, from the defaults.
pub open spec fn manifest_after(lines: Seq<Seq<char>>) -> (Seq<char>, Seq<char>, Seq<char>, Seq<char>)
    decreases lines.len(),
{
    if lines.len() == 0 {
        ("music-project"@, "src/main.music"@, "build/main.mid"@, "midi"@)
    } else {
        manifest_apply(manifest_after(lines.drop_last()), lines.last())
    }
}

/// Reads the `name`, `source`, `output` and `format` settings of a manifest; `#` starts a
/// comment outside quotes, other lines are ignored and missing settings keep their defaults.
pub fn parse_manifest(source: &str) -> (r: ProjectManifest)
    ensures
        (r.name@, r.source@, r.output@, r.format@) == manifest_after(split_char_spec(source@, '\n')),
{
    let mut manifest = ProjectManifest::default();
    let lines = split_char(source, '\n');
    let mut i: usize = 0;
    while i < lines.len()
        invariant
            i <= lines@.len(),
            views(lines@) == split_char_spec(source@, '\n'),
            (manifest.name@, manifest.source@, manifest.output@, manifest.format@) == manifest_after(
                views(lines@).take(i as int),
            ),
        decreases lines@.len() - i,
    {
        assert(views(lines@).take(i + 1).drop_last() =~= views(lines@).take(i as int));
        assert(views(lines@).take(i + 1).last() == lines@[i as int]@);
        let line = strip_comment(lines[i].as_str());
        match split_once(line.as_str(), '=') {
            Some((key, value)) => {
                let key = trim(key.as_str());
                let value = trim_quotes(trim(value.as_str()).as_str());
                let k = key.as_str();
                if str_eq(k, "name") {
                    manifest.name = value;
                } else if str_eq(k, "source") {
                    manifest.source = value;
                } else if str_eq(k, "output") {
                    manifest.output = value;
                } else if str_eq(k, "format") {
                    manifest.format = value;
                }
            },
            None => {},
        }
        i = i + 1;
    }
    assert(views(lines@).take(i as int) =~= views(lines@));
    manifest
}

/// The JSON string text of one character: backslash, quote and newline are escaped.
pub open spec fn json_char(c: char) -> Seq<char> {
    if c == '\\' {
        seq!['\\', '\\']
    } else if c == '"' {
        seq!['\\', '"']
    } else if c == '\n' {
        seq!['\\', 'n']
    } else {
        seq![c]
    }
}

/// A text with its backslashes, quotes and newlines escaped for a JSON string.
pub open spec fn json_escaped(s: Seq<char>) -> Seq<char>
    decreases s.len(),
{
    if s.len() == 0 {
        Seq::empty()
    } else {
        json_escaped(s.drop_last()) + json_char(s.last())
    }
}

pub fn json_escape(value: &str) -> (r: String)
    ensures
        r@ == json_escaped(value@),
{
    let chars = crate::text::chars_of(value);
    let mut out = String::new();
    let mut i: usize = 0;
    while i < chars.len()
        invariant
            i <= chars@.len(),
            chars@ == value@,
            out@ == json_escaped(chars@.take(i as int)),
        decreases chars@.len() - i,
    {
        let c = chars[i];
        assert(chars@.take(i + 1).drop_last() =~= chars@.take(i as int));
        let ghost before = out@;
        if c == '\\' {
            push_char(&mut out, '\\');
            push_char(&mut out, '\\');
        } else if c == '"' {
            push_char(&mut out, '\\');
            push_char(&mut out, '"');
        } else if c == '\n' {
            push_char(&mut out, '\\');
            push_char(&mut out, 'n');
        } else {
            push_char(&mut out, c);
        }
        assert(out@ =~= before + json_char(c));
        i = i + 1;
    }
    assert(chars@.take(i as int) =~= value@);
    out
}

/// A JSON string value, or `null`.
pub open spec fn json_option_text(value: Option<Seq<char>>) -> Seq<char> {
    match value {
        Some(v) => seq!['"'] + json_escaped(v) + seq!['"'],
        None => "null"@,
    }
}

pub fn json_option(value: Option<&str>) -> (r: String)
    ensures
        r@ == json_option_text(
            match value {
                Some(v) => Some(v@),
                None => None,
            },
        ),
{
    match value {
        Some(v) => {
            let mut out = String::new();
            push_char(&mut out, '"');
            append(&mut out, json_escape(v).as_str());
            push_char(&mut out, '"');
            assert(out@ =~= seq!['"'] + json_escaped(v@) + seq!['"']);
            out
        },
        None => owned("null"),
    }
}

/// A span as a JSON object, or `null`.
pub open spec fn json_span_text(span: Option<Span>) -> Seq<char> {
    match span {
        Some(s) => "{\"source_id\":"@ + decimal(s.source_id.0 as nat) + ",\"start\":"@ + decimal(
            s.start as nat,
        ) + ",\"end\":"@ + decimal(s.end as nat) + ",\"line\":"@ + decimal(s.line as nat)
            + ",\"column\":"@ + decimal(s.column as nat) + "}"@,
        None => "null"@,
    }
}

fn push_usize(out: &mut String, n: usize)
    ensures
        final(out)@ == old(out)@ + decimal(n as nat),
{
    let t = u64_text(n as u64);
    append(out, t.as_str());
}

pub fn json_span(span: Option<Span>) -> (r: String)
    ensures
        r@ == json_span_text(span),
{
    match span {
        Some(s) => {
            let mut out = owned("{\"source_id\":");
            let ghost acc = "{\"source_id\":"@;
            push_usize(&mut out, s.source_id.0);
            proof { acc = acc + decimal(s.source_id.0 as nat); }
            append(&mut out, ",\"start\":");
            proof { acc = acc + ",\"start\":"@; assert(out@ =~= acc); }
            push_usize(&mut out, s.start);
            proof { acc = acc + decimal(s.start as nat); assert(out@ =~= acc); }
            append(&mut out, ",\"end\":");
            proof { acc = acc + ",\"end\":"@; assert(out@ =~= acc); }
            push_usize(&mut out, s.end);
            proof { acc = acc + decimal(s.end as nat); assert(out@ =~= acc); }
            append(&mut out, ",\"line\":");
            proof { acc = acc + ",\"line\":"@; assert(out@ =~= acc); }
            push_usize(&mut out, s.line);
            proof { acc = acc + decimal(s.line as nat); assert(out@ =~= acc); }
            append(&mut out, ",\"column\":");
            proof { acc = acc + ",\"column\":"@; assert(out@ =~= acc); }
            push_usize(&mut out, s.column);
            proof { acc = acc + decimal(s.column as nat); assert(out@ =~= acc); }
            append(&mut out, "}");
            proof { acc = acc + "}"@; assert(out@ =~= acc); }
            out
        },
        None => owned("null"),
    }
}

/// A span and a message as a JSON object.
pub open spec fn json_located_text(span: Span, message: Seq<char>) -> Seq<char> {
    "{\"span\":"@ + json_span_text(Some(span)) + ",\"message\":\""@ + json_escaped(message) + "\"}"@
}

fn json_located(span: Span, message: &str) -> (r: String)
    ensures
        r@ == json_located_text(span, message@),
{
    let mut out = owned("{\"span\":");
    append(&mut out, json_span(Some(span)).as_str());
    append(&mut out, ",\"message\":\"");
    append(&mut out, json_escape(message).as_str());
    append(&mut out, "\"}");
    assert(out@ =~= json_located_text(span, message@));
    out
}

/// JSON objects joined by commas inside brackets.
pub open spec fn json_array_text(items: Seq<Seq<char>>) -> Seq<char> {
    seq!['['] + joined(items, seq![',']) + seq![']']
}

/// Texts joined by a separator.
pub open spec fn joined(items: Seq<Seq<char>>, sep: Seq<char>) -> Seq<char>
    decreases items.len(),
{
    if items.len() == 0 {
        Seq::empty()
    } else if items.len() == 1 {
        items[0]
    } else {
        joined(items.drop_last(), sep) + sep + items.last()
    }
}

/// The labels of a diagnostic as a JSON array.
pub open spec fn json_labels_text(labels: Seq<DiagnosticLabel>) -> Seq<char> {
    json_array_text(labels.map_values(|l: DiagnosticLabel| json_located_text(l.span, l.message@)))
}

pub fn json_labels(labels: &[DiagnosticLabel]) -> (r: String)
    ensures
        r@ == json_labels_text(labels@),
{
    let ghost items = labels@.map_values(|l: DiagnosticLabel| json_located_text(l.span, l.message@));
    let mut body = String::new();
    let mut i: usize = 0;
    while i < labels.len()
        invariant
            i <= labels@.len(),
            items == labels@.map_values(|l: DiagnosticLabel| json_located_text(l.span, l.message@)),
            body@ == joined(items.take(i as int), seq![',']),
        decreases labels@.len() - i,
    {
        assert(items.take(i + 1).drop_last() =~= items.take(i as int));
        if i > 0 {
            push_char(&mut body, ',');
        }
        append(&mut body, json_located(labels[i].span, labels[i].message.as_str()).as_str());
        proof {
            if i == 0 {
                assert(items.take(1)[0] == items[0]);
            }
        }
        i = i + 1;
    }
    assert(items.take(i as int) =~= items);
    let mut out = String::new();
    push_char(&mut out, '[');
    append(&mut out, body.as_str());
    push_char(&mut out, ']');
    assert(out@ =~= json_labels_text(labels@));
    out
}

/// The related locations of a diagnostic as a JSON array.
pub open spec fn json_related_text(related: Seq<DiagnosticRelated>) -> Seq<char> {
    json_array_text(related.map_values(|l: DiagnosticRelated| json_located_text(l.span, l.message@)))
}

pub fn json_related(related: &[DiagnosticRelated]) -> (r: String)
    ensures
        r@ == json_related_text(related@),
{
    let ghost items = related@.map_values(
        |l: DiagnosticRelated| json_located_text(l.span, l.message@),
    );
    let mut body = String::new();
    let mut i: usize = 0;
    while i < related.len()
        invariant
            i <= related@.len(),
            items == related@.map_values(
                |l: DiagnosticRelated| json_located_text(l.span, l.message@),
            ),
            body@ == joined(items.take(i as int), seq![',']),
        decreases related@.len() - i,
    {
        assert(items.take(i + 1).drop_last() =~= items.take(i as int));
        if i > 0 {
            push_char(&mut body, ',');
        }
        append(&mut body, json_located(related[i].span, related[i].message.as_str()).as_str());
        proof {
            if i == 0 {
                assert(items.take(1)[0] == items[0]);
            }
        }
        i = i + 1;
    }
    assert(items.take(i as int) =~= items);
    let mut out = String::new();
    push_char(&mut out, '[');
    append(&mut out, body.as_str());
    push_char(&mut out, ']');
    assert(out@ =~= json_related_text(related@));
    out
}

fn option_str(value: &Option<String>) -> (r: Option<&str>)
    ensures
        match r {
            Some(s) => value matches Some(v) && s@ == v@,
            None => value is None,
        },
{
    match value {
        Some(v) => Some(v.as_str()),
        None => None,
    }
}

/// The text of an optional string field.
pub open spec fn option_text(value: Option<String>) -> Option<Seq<char>> {
    match value {
        Some(v) => Some(v@),
        None => None,
    }
}

/// One diagnostic as a JSON object: its code, severity, message, position, span,
/// labels, related locations, rule, style and help.
pub open spec fn diagnostic_json_text(d: Diagnostic) -> Seq<char> {
    "{\"code\":\""@ + json_escaped(d.code@) + "\",\"severity\":\""@ + crate::diagnostic::severity_text(
        d.severity,
    ) + "\",\"message\":\""@ + json_escaped(d.message@) + "\",\"line\":"@ + decimal(d.line as nat)
        + ",\"column\":"@ + decimal(d.column as nat) + ",\"span\":"@ + json_span_text(d.span)
        + ",\"labels\":"@ + json_labels_text(d.labels@) + ",\"related\":"@ + json_related_text(
        d.related@,
    ) + ",\"rule\":"@ + json_option_text(option_text(d.rule)) + ",\"style\":"@ + json_option_text(
        option_text(d.style),
    ) + ",\"help\":"@ + json_option_text(option_text(d.help)) + "}"@
}

fn diagnostic_json(d: &Diagnostic) -> (r: String)
    ensures
        r@ == diagnostic_json_text(*d),
{
    let ghost mut acc = "{\"code\":\""@;
    let mut out = owned("{\"code\":\"");
    append(&mut out, json_escape(d.code.as_str()).as_str());
    append(&mut out, "\",\"severity\":\"");
    append(&mut out, d.severity.name());
    append(&mut out, "\",\"message\":\"");
    proof {
        acc = acc + json_escaped(d.code@) + "\",\"severity\":\""@ + crate::diagnostic::severity_text(
            d.severity,
        ) + "\",\"message\":\""@;
        assert(out@ =~= acc);
    }
    append(&mut out, json_escape(d.message.as_str()).as_str());
    append(&mut out, "\",\"line\":");
    push_usize(&mut out, d.line);
    append(&mut out, ",\"column\":");
    push_usize(&mut out, d.column);
    proof {
        acc = acc + json_escaped(d.message@) + "\",\"line\":"@ + decimal(d.line as nat)
            + ",\"column\":"@ + decimal(d.column as nat);
        assert(out@ =~= acc);
    }
    append(&mut out, ",\"span\":");
    append(&mut out, json_span(d.span).as_str());
    append(&mut out, ",\"labels\":");
    append(&mut out, json_labels(d.labels.as_slice()).as_str());
    append(&mut out, ",\"related\":");
    append(&mut out, json_related(d.related.as_slice()).as_str());
    proof {
        acc = acc + ",\"span\":"@ + json_span_text(d.span) + ",\"labels\":"@ + json_labels_text(
            d.labels@,
        ) + ",\"related\":"@ + json_related_text(d.related@);
        assert(out@ =~= acc);
    }
    append(&mut out, ",\"rule\":");
    append(&mut out, json_option(option_str(&d.rule)).as_str());
    append(&mut out, ",\"style\":");
    append(&mut out, json_option(option_str(&d.style)).as_str());
    append(&mut out, ",\"help\":");
    append(&mut out, json_option(option_str(&d.help)).as_str());
    append(&mut out, "}");
    proof {
        acc = acc + ",\"rule\":"@ + json_option_text(option_text(d.rule)) + ",\"style\":"@
            + json_option_text(option_text(d.style)) + ",\"help\":"@ + json_option_text(
            option_text(d.help),
        ) + "}"@;
        assert(out@ =~= acc);
        assert(acc =~= diagnostic_json_text(*d));
    }
    out
}

/// The diagnostics as a JSON array of objects, one per diagnostic.
pub fn diagnostics_json(diagnostics: &[Diagnostic]) -> (r: String)
    ensures
        r@ == json_array_text(diagnostics@.map_values(|d: Diagnostic| diagnostic_json_text(d))),
{
    let ghost items = diagnostics@.map_values(|d: Diagnostic| diagnostic_json_text(d));
    let mut body = String::new();
    let mut i: usize = 0;
    while i < diagnostics.len()
        invariant
            i <= diagnostics@.len(),
            items == diagnostics@.map_values(|d: Diagnostic| diagnostic_json_text(d)),
            body@ == joined(items.take(i as int), seq![',']),
        decreases diagnostics@.len() - i,
    {
        assert(items.take(i + 1).drop_last() =~= items.take(i as int));
        if i > 0 {
            push_char(&mut body, ',');
        }
        append(&mut body, diagnostic_json(&diagnostics[i]).as_str());
        proof {
            if i == 0 {
                assert(items.take(1)[0] == items[0]);
            }
        }
        i = i + 1;
    }
    assert(items.take(i as int) =~= items);
    let mut out = String::new();
    push_char(&mut out, '[');
    append(&mut out, body.as_str());
    push_char(&mut out, ']');
    assert(out@ =~= json_array_text(items));
    out
}

/// The texts of the diagnostics, one after the other, separated by newlines.
pub fn format_diagnostics(diagnostics: &Vec<Diagnostic>) -> (r: String)
    ensures
        r@ == joined(diagnostics@.map_values(|d: Diagnostic| diagnostic_text(d)), seq!['\n']),
{
    let ghost items = diagnostics@.map_values(|d: Diagnostic| diagnostic_text(d));
    let mut out = String::new();
    let mut i: usize = 0;
    while i < diagnostics.len()
        invariant
            i <= diagnostics@.len(),
            items == diagnostics@.map_values(|d: Diagnostic| diagnostic_text(d)),
            out@ == joined(items.take(i as int), seq!['\n']),
        decreases diagnostics@.len() - i,
    {
        assert(items.take(i + 1).drop_last() =~= items.take(i as int));
        if i > 0 {
            push_char(&mut out, '\n');
        }
        append(&mut out, diagnostics[i].to_text().as_str());
        proof {
            if i == 0 {
                assert(items.take(1)[0] == items[0]);
            }
        }
        i = i + 1;
    }
    assert(items.take(i as int) =~= items);
    out
}

/// The line that reports an override: its rule, position and reason.
pub fn override_trace_line(trace: &OverrideTrace) -> (r: String)
    ensures
        r@ == "  "@ + trace.rule@ + " at "@ + decimal(trace.line as nat) + ":"@ + decimal(
            trace.column as nat,
        ) + " ("@ + match trace.reason {
            Some(reason) => reason@,
            None => "no reason provided"@,
        } + ")"@,
{
    let mut out = owned("  ");
    append(&mut out, trace.rule.as_str());
    append(&mut out, " at ");
    push_usize(&mut out, trace.line);
    append(&mut out, ":");
    push_usize(&mut out, trace.column);
    append(&mut out, " (");
    match &trace.reason {
        Some(reason) => append(&mut out, reason.as_str()),
        None => append(&mut out, "no reason provided"),
    }
    append(&mut out, ")");
    out
}

/// The export formats.
#[derive(Debug, Clone, Copy, PartialEq, Eq, Structural)]
pub enum ExportFormat {
    Midi,
    MusicXml,
    Wav,
}

/// The format that a name selects.
pub open spec fn format_named(name: Seq<char>) -> Option<ExportFormat> {
    if name == "midi"@ || name == "mid"@ {
        Some(ExportFormat::Midi)
    } else if name == "musicxml"@ || name == "xml"@ {
        Some(ExportFormat::MusicXml)
    } else if name == "wav"@ || name == "audio"@ {
        Some(ExportFormat::Wav)
    } else {
        None
    }
}

pub fn export_format(name: &str) -> (r: Option<ExportFormat>)
    ensures
        r == format_named(name@),
{
    if str_eq(name, "midi") || str_eq(name, "mid") {
        Some(ExportFormat::Midi)
    } else if str_eq(name, "musicxml") || str_eq(name, "xml") {
        Some(ExportFormat::MusicXml)
    } else if str_eq(name, "wav") || str_eq(name, "audio") {
        Some(ExportFormat::Wav)
    } else {
        None
    }
}

/// The file an export writes when no output is given.
pub fn default_output(format: ExportFormat) -> (r: &'static str)
    ensures
        format == ExportFormat::Midi ==> r@ == "output.mid"@,
        format == ExportFormat::MusicXml ==> r@ == "output.musicxml"@,
        format == ExportFormat::Wav ==> r@ == "output.wav"@,
{
    match format {
        ExportFormat::Midi => "output.mid",
        ExportFormat::MusicXml => "output.musicxml",
        ExportFormat::Wav => "output.wav",
    }
}

/// The `music.toml` of a new project.
pub fn new_manifest_text(name: &str) -> (r: String)
    ensures
        r@ == "name = \""@ + name@ + "\"\nsource = \"src/main.music\"\noutput = \"build/"@ + name@
            + ".mid\"\nformat = \"midi\"\n"@,
{
    let mut out = owned("name = \"");
    append(&mut out, name);
    append(&mut out, "\"\nsource = \"src/main.music\"\noutput = \"build/");
    append(&mut out, name);
    append(&mut out, ".mid\"\nformat = \"midi\"\n");
    out
}

/// The score of a new project.
pub fn new_source_text(name: &str) -> (r: String)
    ensures
        r@ == "score "@ + name@
            + " {\n  tempo 96\n  meter 4/4\n  key C major\n  voice lead {\n    program 40\n    note C4, 1/4\n    note C4 + M3, 1/4\n    note G4, 1/2\n  }\n}\n"@,
{
    let mut out = owned("score ");
    append(&mut out, name);
    append(
        &mut out,
        " {\n  tempo 96\n  meter 4/4\n  key C major\n  voice lead {\n    program 40\n    note C4, 1/4\n    note C4 + M3, 1/4\n    note G4, 1/2\n  }\n}\n",
    );
    out
}

/// The lines that describe one catalog entry.
pub fn theory_entry_lines(domain: TheoryDomain, entry: &TheoryEntry) -> (r: Vec<String>)
    ensures
        r@.len() == 4,
        r@[0]@ == crate::theory::domain_text(domain) + ":"@ + entry.id@,
        r@[1]@ == "  name: "@ + entry.name@,
        r@[2]@ == "  description: "@ + entry.description@,
        r@[3]@ == "  pattern: "@ + joined(entry.pattern@.map_values(|p: &'static str| p@), seq![' ']),
{
    let first = concat3(domain.name(), ":", entry.id);
    let second = concat("  name: ", entry.name);
    let third = concat("  description: ", entry.description);
    let ghost items = entry.pattern@.map_values(|p: &'static str| p@);
    let mut body = String::new();
    let mut i: usize = 0;
    while i < entry.pattern.len()
        invariant
            i <= entry.pattern@.len(),
            items == entry.pattern@.map_values(|p: &'static str| p@),
            body@ == joined(items.take(i as int), seq![' ']),
        decreases entry.pattern@.len() - i,
    {
        assert(items.take(i + 1).drop_last() =~= items.take(i as int));
        if i > 0 {
            push_char(&mut body, ' ');
        }
        append(&mut body, entry.pattern[i]);
        proof {
            if i == 0 {
                assert(items.take(1)[0] == items[0]);
            }
        }
        i = i + 1;
    }
    assert(items.take(i as int) =~= items);
    let pattern = concat("  pattern: ", body.as_str());
    vec![first, second, third, pattern]
}

/// A command of the interactive session.
#[derive(Debug, Clone, PartialEq, Eq)]
pub enum ReplCommand {
    Help,
    Reset,
    Diagnose,
    ShowSource,
    ShowIr,
    Quit,
    Load(String),
    Style(String),
    Export(String),
    Unknown(String),
    Source,
}

/// The argument after a command word, trimmed.
fn command_argument(trimmed: &str, word: &str) -> (r: Option<String>)
    ensures
        r is Some <==> crate::text::has_prefix(trimmed@, word@),
        r matches Some(a) ==> a@ == trim_seq(trimmed@.skip(word@.len() as int)),
{
    match crate::text::strip_prefix(trimmed, word) {
        Some(rest) => Some(trim(rest.as_str())),
        None => None,
    }
}

/// The commands of the interactive session that take no argument.
pub open spec fn fixed_command(t: Seq<char>) -> bool {
    t == ":help"@ || t == ":reset"@ || t == ":diagnose"@ || t == ":show source"@ || t == ":show ir"@
        || t == ":quit"@ || t == ":exit"@
}

/// What a line typed into the interactive session asks for; a line that is not a
/// command is more source.
pub fn repl_command(line: &str) -> (r: ReplCommand)
    ensures
        trim_seq(line@) == ":help"@ ==> r == ReplCommand::Help,
        trim_seq(line@) == ":reset"@ ==> r == ReplCommand::Reset,
        trim_seq(line@) == ":diagnose"@ ==> r == ReplCommand::Diagnose,
        trim_seq(line@) == ":show source"@ ==> r == ReplCommand::ShowSource,
        trim_seq(line@) == ":show ir"@ ==> r == ReplCommand::ShowIr,
        trim_seq(line@) == ":quit"@ || trim_seq(line@) == ":exit"@ ==> r == ReplCommand::Quit,
        trim_seq(line@).len() == 0 || trim_seq(line@)[0] != ':' ==> r == ReplCommand::Source,
        trim_seq(line@).len() > 0 && trim_seq(line@)[0] == ':' && !fixed_command(trim_seq(line@)) ==> {
            let t = trim_seq(line@);
            if crate::text::has_prefix(t, ":load "@) {
                r matches ReplCommand::Load(p) && p@ == trim_seq(t.skip(":load "@.len() as int))
            } else if crate::text::has_prefix(t, ":style "@) {
                r matches ReplCommand::Style(n) && n@ == trim_seq(t.skip(":style "@.len() as int))
            } else if crate::text::has_prefix(t, ":export "@) {
                r matches ReplCommand::Export(p) && p@ == trim_seq(t.skip(":export "@.len() as int))
            } else {
                r matches ReplCommand::Unknown(u) && u@ == t
            }
        },
{
    proof {
        reveal_strlit(":help");
        reveal_strlit(":reset");
        reveal_strlit(":diagnose");
        reveal_strlit(":show source");
        reveal_strlit(":show ir");
        reveal_strlit(":quit");
        reveal_strlit(":exit");
        reveal_strlit(":load ");
        reveal_strlit(":style ");
        reveal_strlit(":export ");
        assert(":quit"@ != ":help"@) by {
            assert(":quit"@[1] != ":help"@[1]);
        }
        assert(":exit"@ != ":help"@) by {
            assert(":exit"@[1] != ":help"@[1]);
        }
    }
    let trimmed = trim(line);
    let t = trimmed.as_str();
    let chars = crate::text::chars_of(t);
    if chars.len() == 0 || chars[0] != ':' {
        return ReplCommand::Source;
    }
    if str_eq(t, ":help") {
        ReplCommand::Help
    } else if str_eq(t, ":reset") {
        ReplCommand::Reset
    } else if str_eq(t, ":diagnose") {
        ReplCommand::Diagnose
    } else if str_eq(t, ":show source") {
        ReplCommand::ShowSource
    } else if str_eq(t, ":show ir") {
        ReplCommand::ShowIr
    } else if str_eq(t, ":quit") || str_eq(t, ":exit") {
        ReplCommand::Quit
    } else {
        match command_argument(t, ":load ") {
            Some(path) => ReplCommand::Load(path),
            None => match command_argument(t, ":style ") {
                Some(name) => ReplCommand::Style(name),
                None => match command_argument(t, ":export ") {
                    Some(path) => ReplCommand::Export(path),
                    None => ReplCommand::Unknown(trimmed.clone()),
                },
            },
        }
    }
}

/// The session's source after `:style name`: the style line, then the source.
pub fn with_style_line(name: &str, buffer: &str) -> (r: String)
    ensures
        r@ == "style "@ + name@ + "\n"@ + buffer@,
{
    let mut out = owned("style ");
    append(&mut out, name);
    append(&mut out, "\n");
    append(&mut out, buffer);
    out
}

} // verus!
