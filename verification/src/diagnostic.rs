use vstd::prelude::*;

use crate::text::{append, chars_of, char_utf8_len, int_text, owned, u64_text, utf8_len};

verus! {

/// Identifies a source file in a `SourceMap`.
#[derive(Debug, Clone, Copy, PartialEq, Eq, Structural, Hash, PartialOrd, Ord)]
pub struct SourceId(pub usize);

/// A region of source text: byte offsets plus the 1-based line and column of its start.
#[derive(Debug, Clone, Copy, PartialEq, Eq, Structural, Hash)]
pub struct Span {
    pub source_id: SourceId,
    pub start: usize,
    pub end: usize,
    pub line: usize,
    pub column: usize,
}

impl Span {
    /// A span that only records a line and a column.
    pub fn point(line: usize, column: usize) -> (r: Span)
        ensures
            r == (Span { source_id: SourceId(0), start: 0, end: 0, line, column }),
    {
        Span { source_id: SourceId(0), start: 0, end: 0, line, column }
    }
}

/// A diagnostic placed at its span: it has one, and its line and column are the span's.
pub open spec fn located(d: Diagnostic) -> bool {
    d.span matches Some(sp) && d.line == sp.line && d.column == sp.column
}

/// A value with the span it came from.
#[derive(Debug, Clone, PartialEq, Eq)]
pub struct Spanned<T> {
    pub value: T,
    pub span: Span,
}

impl<T> Spanned<T> {
    pub fn new(value: T, span: Span) -> (r: Spanned<T>)
        ensures
            r.value == value,
            r.span == span,
    {
        Spanned { value, span }
    }
}

/// A message attached to a span of a diagnostic.
#[derive(Debug, Clone, PartialEq, Eq)]
pub struct DiagnosticLabel {
    pub span: Span,
    pub message: String,
}

/// A related location of a diagnostic.
#[derive(Debug, Clone, PartialEq, Eq)]
pub struct DiagnosticRelated {
    pub span: Span,
    pub message: String,
}

/// How serious a diagnostic is.
#[derive(Debug, Clone, Copy, PartialEq, Eq, Structural)]
pub enum Severity {
    Error,
    Warning,
}

/// How a style rule reports: as an error, as a warning, or not at all.
#[derive(Debug, Clone, Copy, PartialEq, Eq, Structural)]
pub enum RuleSeverity {
    Error,
    Warning,
    Off,
}

/// A compiler message with a stable code, a location and optional context.
#[derive(Debug, Clone, PartialEq, Eq)]
pub struct Diagnostic {
    pub code: String,
    pub severity: Severity,
    pub message: String,
    pub line: usize,
    pub column: usize,
    pub span: Option<Span>,
    pub labels: Vec<DiagnosticLabel>,
    pub related: Vec<DiagnosticRelated>,
    pub rule: Option<String>,
    pub style: Option<String>,
    pub help: Option<String>,
}

/// A diagnostic with the given parts and no label, related location, rule, style or help.
pub open spec fn plain_diagnostic(
    d: Diagnostic,
    code: Seq<char>,
    severity: Severity,
    message: Seq<char>,
    line: usize,
    column: usize,
) -> bool {
    &&& d.code@ == code
    &&& d.severity == severity
    &&& d.message@ == message
    &&& d.line == line
    &&& d.column == column
    &&& d.span == Some(Span::point_spec(line, column))
    &&& d.labels@.len() == 0
    &&& d.related@.len() == 0
    &&& d.rule is None
    &&& d.style is None
    &&& d.help is None
}

impl Span {
    pub open spec fn point_spec(line: usize, column: usize) -> Span {
        Span { source_id: SourceId(0), start: 0, end: 0, line, column }
    }
}

/// The severity's text (its `Display` text).
pub open spec fn severity_text(s: Severity) -> Seq<char> {
    match s {
        Severity::Error => "error"@,
        Severity::Warning => "warning"@,
    }
}

impl Severity {
    pub fn name(self) -> (r: &'static str)
        ensures
            r@ == severity_text(self),
    {
        match self {
            Severity::Error => "error",
            Severity::Warning => "warning",
        }
    }
}

impl Diagnostic {
    pub fn error(code: &str, message: &str, line: usize, column: usize) -> (r: Diagnostic)
        ensures
            plain_diagnostic(r, code@, Severity::Error, message@, line, column),
    {
        Diagnostic {
            code: owned(code),
            severity: Severity::Error,
            message: owned(message),
            line,
            column,
            span: Some(Span::point(line, column)),
            labels: Vec::new(),
            related: Vec::new(),
            rule: None,
            style: None,
            help: None,
        }
    }

    pub fn warning(code: &str, message: &str, line: usize, column: usize) -> (r: Diagnostic)
        ensures
            plain_diagnostic(r, code@, Severity::Warning, message@, line, column),
    {
        let mut diagnostic = Diagnostic::error(code, message, line, column);
        diagnostic.severity = Severity::Warning;
        diagnostic
    }

    pub fn with_severity(self, severity: Severity) -> (r: Diagnostic)
        ensures
            r == (Diagnostic { severity, ..self }),
    {
        let mut d = self;
        d.severity = severity;
        d
    }

    pub fn with_span(self, span: Span) -> (r: Diagnostic)
        ensures
            r == (Diagnostic { line: span.line, column: span.column, span: Some(span), ..self }),
    {
        let mut d = self;
        d.line = span.line;
        d.column = span.column;
        d.span = Some(span);
        d
    }

    pub fn with_label(self, span: Span, message: &str) -> (r: Diagnostic)
        ensures
            r.labels@.len() == self.labels@.len() + 1,
            r.labels@.drop_last() == self.labels@,
            r.labels@.last().span == span,
            r.labels@.last().message@ == message@,
            r == (Diagnostic { labels: r.labels, ..self }),
    {
        let mut d = self;
        d.labels.push(DiagnosticLabel { span, message: owned(message) });
        assert(d.labels@.drop_last() =~= self.labels@);
        d
    }

    pub fn with_related(self, span: Span, message: &str) -> (r: Diagnostic)
        ensures
            r.related@.len() == self.related@.len() + 1,
            r.related@.drop_last() == self.related@,
            r.related@.last().span == span,
            r.related@.last().message@ == message@,
            r == (Diagnostic { related: r.related, ..self }),
    {
        let mut d = self;
        d.related.push(DiagnosticRelated { span, message: owned(message) });
        assert(d.related@.drop_last() =~= self.related@);
        d
    }

    pub fn with_rule(self, rule: &str) -> (r: Diagnostic)
        ensures
            r.rule matches Some(x) && x@ == rule@,
            r == (Diagnostic { rule: r.rule, ..self }),
    {
        let mut d = self;
        d.rule = Some(owned(rule));
        d
    }

    pub fn with_style(self, style: &str) -> (r: Diagnostic)
        ensures
            r.style matches Some(x) && x@ == style@,
            r == (Diagnostic { style: r.style, ..self }),
    {
        let mut d = self;
        d.style = Some(owned(style));
        d
    }

    pub fn with_help(self, help: &str) -> (r: Diagnostic)
        ensures
            r.help matches Some(x) && x@ == help@,
            r == (Diagnostic { help: r.help, ..self }),
    {
        let mut d = self;
        d.help = Some(owned(help));
        d
    }

    /// The diagnostic as the text that its `Display` writes.
    pub fn to_text(&self) -> (r: String)
        ensures
            r@ == diagnostic_text(*self),
    {
        let mut s = owned(self.severity.name());
        append(&mut s, "[");
        append(&mut s, self.code.as_str());
        append(&mut s, "]: ");
        append(&mut s, self.message.as_str());
        append(&mut s, "\n  at ");
        let line = u64_text(self.line as u64);
        append(&mut s, line.as_str());
        append(&mut s, ":");
        let column = u64_text(self.column as u64);
        append(&mut s, column.as_str());
        append(&mut s, "\n");
        let ghost base = severity_text(self.severity) + "["@ + self.code@ + "]: "@ + self.message@
            + "\n  at "@ + int_text(self.line as int) + ":"@ + int_text(self.column as int)
            + "\n"@;
        assert(s@ =~= base);
        if let Some(style) = &self.style {
            append(&mut s, "  style: ");
            append(&mut s, style.as_str());
            append(&mut s, "\n");
            assert(s@ =~= base + optional_line("  style: "@, self.style));
        }
        let ghost with_style = base + optional_line("  style: "@, self.style);
        assert(s@ =~= with_style);
        if let Some(rule) = &self.rule {
            append(&mut s, "  rule: ");
            append(&mut s, rule.as_str());
            append(&mut s, "\n");
            assert(s@ =~= with_style + optional_line("  rule: "@, self.rule));
        }
        let ghost with_rule = with_style + optional_line("  rule: "@, self.rule);
        assert(s@ =~= with_rule);
        if let Some(help) = &self.help {
            append(&mut s, "  help: ");
            append(&mut s, help.as_str());
            append(&mut s, "\n");
        }
        assert(s@ =~= with_rule + optional_line("  help: "@, self.help));
        s
    }
}

/// An optional `  name: value` line of a diagnostic's text.
pub open spec fn optional_line(label: Seq<char>, value: Option<String>) -> Seq<char> {
    match value {
        Some(v) => label + v@ + "\n"@,
        None => Seq::empty(),
    }
}

/// What `Display` writes for a diagnostic.
pub open spec fn diagnostic_text(d: Diagnostic) -> Seq<char> {
    severity_text(d.severity) + "["@ + d.code@ + "]: "@ + d.message@ + "\n  at "@ + int_text(
        d.line as int,
    ) + ":"@ + int_text(d.column as int) + "\n"@ + optional_line("  style: "@, d.style)
        + optional_line("  rule: "@, d.rule) + optional_line("  help: "@, d.help)
}

// ---------------------------------------------------------------------------
// Source files
// ---------------------------------------------------------------------------

/// Number of UTF-8 bytes of a character sequence.
pub open spec fn byte_len(s: Seq<char>) -> nat
    decreases s.len(),
{
    if s.len() == 0 {
        0
    } else {
        byte_len(s.drop_last()) + utf8_len(s.last())
    }
}

/// Byte offsets at which the lines of `s` start: 0, and the offset after each newline.
pub open spec fn line_starts_of(s: Seq<char>) -> Seq<nat>
    decreases s.len(),
{
    if s.len() == 0 {
        seq![0]
    } else if s.last() == '\n' {
        line_starts_of(s.drop_last()).push(byte_len(s))
    } else {
        line_starts_of(s.drop_last())
    }
}

/// A strictly increasing sequence that starts at 0.
pub open spec fn starts_ok(starts: Seq<nat>) -> bool {
    &&& starts.len() > 0
    &&& starts[0] == 0
    &&& forall|i: int, j: int| 0 <= i < j < starts.len() ==> starts[i] < starts[j]
}

/// Index of the last line that starts at or before `offset`.
pub open spec fn line_index_of(starts: Seq<nat>, offset: nat) -> int
    decreases starts.len(),
{
    if starts.len() <= 1 {
        0
    } else if starts.last() <= offset {
        starts.len() - 1
    } else {
        line_index_of(starts.drop_last(), offset)
    }
}

/// A source text with its name and id.
#[derive(Debug, Clone, PartialEq, Eq)]
pub struct SourceFile {
    pub id: SourceId,
    pub name: String,
    pub text: String,
    line_starts: Vec<usize>,
    byte_len: usize,
}

proof fn lemma_byte_len_bound(s: Seq<char>)
    ensures
        byte_len(s) <= 4 * s.len(),
    decreases s.len(),
{
    if s.len() > 0 {
        lemma_byte_len_bound(s.drop_last());
    }
}

proof fn lemma_line_starts_bound(s: Seq<char>)
    ensures
        starts_ok(line_starts_of(s)),
        line_starts_of(s).last() <= byte_len(s),
    decreases s.len(),
{
    if s.len() > 0 {
        lemma_line_starts_bound(s.drop_last());
        assert(utf8_len(s.last()) >= 1);
    }
}

impl SourceFile {
    pub closed spec fn id_spec(self) -> SourceId {
        self.id
    }

    pub closed spec fn name_view(self) -> Seq<char> {
        self.name@
    }

    pub closed spec fn text_view(self) -> Seq<char> {
        self.text@
    }

    pub closed spec fn line_starts_spec(self) -> Seq<nat> {
        self.line_starts@.map_values(|x: usize| x as nat)
    }

    /// Source files made by `SourceMap::add` keep these facts.
    pub closed spec fn wf(self) -> bool {
        &&& self.line_starts_spec() == line_starts_of(self.text@)
        &&& self.byte_len as nat == byte_len(self.text@)
        &&& starts_ok(self.line_starts_spec())
        &&& self.line_starts_spec().last() <= self.byte_len
        &&& self.byte_len < usize::MAX
    }

    fn new(id: SourceId, name: &str, text: &str) -> (r: SourceFile)
        requires
            4 * text@.len() < usize::MAX,
        ensures
            r.id_spec() == id,
            r.name_view() == name@,
            r.text_view() == text@,
            r.wf(),
    {
        let chars = chars_of(text);
        let mut line_starts: Vec<usize> = Vec::new();
        line_starts.push(0);
        let mut index: usize = 0;
        let mut i: usize = 0;
        proof {
            assert(chars@.take(0) =~= Seq::<char>::empty());
            assert(line_starts@.map_values(|x: usize| x as nat) =~= seq![0nat]);
        }
        while i < chars.len()
            invariant
                i <= chars@.len(),
                chars@ == text@,
                4 * text@.len() < usize::MAX,
                index == byte_len(chars@.take(i as int)),
                line_starts@.map_values(|x: usize| x as nat) == line_starts_of(
                    chars@.take(i as int),
                ),
            decreases chars.len() - i,
        {
            let ch = chars[i];
            proof {
                let t = chars@.take(i + 1);
                assert(t.drop_last() =~= chars@.take(i as int));
                assert(t.last() == ch);
                lemma_byte_len_bound(t);
            }
            index = index + char_utf8_len(ch);
            if ch == '\n' {
                line_starts.push(index);
                proof {
                    assert(line_starts@.map_values(|x: usize| x as nat) =~= line_starts_of(
                        chars@.take(i as int),
                    ).push(index as nat));
                }
            }
            i = i + 1;
        }
        proof {
            assert(chars@.take(i as int) =~= text@);
            lemma_line_starts_bound(text@);
            lemma_byte_len_bound(text@);
        }
        SourceFile { id, name: owned(name), text: owned(text), line_starts, byte_len: index }
    }

    /// Length of the text in bytes.
    pub fn len(&self) -> (r: usize)
        requires
            self.wf(),
        ensures
            r == byte_len(self.text_view()),
    {
        self.byte_len
    }

    /// The span of `start..end`, each clamped to the text, with the line and column of its start.
    pub open spec fn span_spec(self, start: usize, end: usize) -> Span {
        let n = byte_len(self.text_view());
        let s = if start as nat <= n {
            start as nat
        } else {
            n
        };
        let e0 = if end as nat <= n {
            end as nat
        } else {
            n
        };
        let e = if e0 >= s {
            e0
        } else {
            s
        };
        let k = line_index_of(line_starts_of(self.text_view()), s);
        Span {
            source_id: self.id_spec(),
            start: s as usize,
            end: e as usize,
            line: (k + 1) as usize,
            column: (s - line_starts_of(self.text_view())[k] + 1) as usize,
        }
    }

    /// The span of `start..end`, each clamped to the text, with the line and column of its start.
    pub fn span(&self, start: usize, end: usize) -> (r: Span)
        requires
            self.wf(),
        ensures
            r == self.span_spec(start, end),
            ({
                let n = byte_len(self.text_view());
                let s = if start as nat <= n {
                    start as nat
                } else {
                    n
                };
                let e0 = if end as nat <= n {
                    end as nat
                } else {
                    n
                };
                let e = if e0 >= s {
                    e0
                } else {
                    s
                };
                let k = line_index_of(line_starts_of(self.text_view()), s);
                &&& r.source_id == self.id_spec()
                &&& r.start == s
                &&& r.end == e
                &&& r.line == k + 1
                &&& r.column == s - line_starts_of(self.text_view())[k] + 1
            }),
    {
        let n = self.byte_len;
        let s = if start <= n {
            start
        } else {
            n
        };
        let e0 = if end <= n {
            end
        } else {
            n
        };
        let e = if e0 >= s {
            e0
        } else {
            s
        };
        let (line, column) = self.line_column(s);
        Span { source_id: self.id, start: s, end: e, line, column }
    }

    /// The 1-based line and column (in bytes) of a byte offset, clamped to the text.
    pub fn line_column(&self, offset: usize) -> (r: (usize, usize))
        requires
            self.wf(),
        ensures
            ({
                let n = byte_len(self.text_view());
                let o = if offset as nat <= n {
                    offset as nat
                } else {
                    n
                };
                let k = line_index_of(line_starts_of(self.text_view()), o);
                &&& 0 <= k < line_starts_of(self.text_view()).len()
                &&& r.0 == k + 1
                &&& r.1 == o - line_starts_of(self.text_view())[k] + 1
            }),
    {
        let o = if offset <= self.byte_len {
            offset
        } else {
            self.byte_len
        };
        let ghost starts = self.line_starts_spec();
        let mut k: usize = self.line_starts.len() - 1;
        assert(starts.take(k + 1) =~= starts);
        while k > 0 && self.line_starts[k] > o
            invariant
                k < self.line_starts@.len(),
                self.wf(),
                starts == self.line_starts_spec(),
                line_index_of(starts, o as nat) == line_index_of(starts.take(k + 1), o as nat),
            decreases k,
        {
            proof {
                let t = starts.take(k + 1);
                assert(t.last() == starts[k as int]);
                assert(t.drop_last() =~= starts.take(k as int));
            }
            k = k - 1;
        }
        proof {
            let t = starts.take(k + 1);
            assert(t.len() == k + 1);
            if k > 0 {
                assert(t.last() == starts[k as int]);
            }
            assert(t[k as int] == starts[k as int]);
            assert(starts[k as int] == self.line_starts@[k as int] as nat);
            assert(starts[0] == 0);
            assert(starts[k as int] <= o);
        }
        (k + 1, o - self.line_starts[k] + 1)
    }
}

/// The source files of a compilation.
#[derive(Debug, Clone, Default, PartialEq, Eq)]
pub struct SourceMap {
    files: Vec<SourceFile>,
}

impl SourceMap {
    pub closed spec fn files_spec(self) -> Seq<SourceFile> {
        self.files@
    }

    /// Every file is well formed and file `i` has id `i`.
    pub closed spec fn wf(self) -> bool {
        forall|i: int|
            0 <= i < self.files@.len() ==> (#[trigger] self.files@[i]).wf()
                && self.files@[i].id_spec() == SourceId(i as usize)
    }

    /// Ids are dense: in a source map built by `new` and `add`, the file at position `i` has
    /// id `i`, so the `k`-th text added has id `k` and `get` finds it by that id.
    pub proof fn lemma_ids_dense(self)
        requires
            self.wf(),
        ensures
            forall|i: int| 0 <= i < self.files_spec().len() ==> (#[trigger] self.files_spec()[i]).id_spec() == SourceId(i as usize),
    {
    }

    pub fn new() -> (r: SourceMap)
        ensures
            r.files_spec().len() == 0,
            r.wf(),
    {
        SourceMap { files: Vec::new() }
    }

    pub fn add(&mut self, name: &str, text: &str) -> (r: SourceId)
        requires
            old(self).wf(),
            4 * text@.len() < usize::MAX,
        ensures
            final(self).wf(),
            r == SourceId(old(self).files_spec().len() as usize),
            final(self).files_spec().len() == old(self).files_spec().len() + 1,
            final(self).files_spec().drop_last() == old(self).files_spec(),
            final(self).files_spec().last().name_view() == name@,
            final(self).files_spec().last().text_view() == text@,
            final(self).files_spec().last().id_spec() == r,
    {
        let id = SourceId(self.files.len());
        let file = SourceFile::new(id, name, text);
        self.files.push(file);
        assert(self.files@.drop_last() =~= old(self).files@);
        id
    }

    pub fn get(&self, id: SourceId) -> (r: Option<&SourceFile>)
        requires
            self.wf(),
        ensures
            r is Some <==> id.0 < self.files_spec().len(),
            r matches Some(f) ==> *f == self.files_spec()[id.0 as int] && f.wf(),
    {
        if id.0 < self.files.len() {
            Some(&self.files[id.0])
        } else {
            None
        }
    }

    pub fn span(&self, id: SourceId, start: usize, end: usize) -> (r: Option<Span>)
        requires
            self.wf(),
        ensures
            r is Some <==> id.0 < self.files_spec().len(),
            r matches Some(s) ==> s.source_id == id,
            r matches Some(s) ==> s == self.files_spec()[id.0 as int].span_spec(start, end),
    {
        match self.get(id) {
            Some(file) => Some(file.span(start, end)),
            None => None,
        }
    }

    pub fn len(&self) -> (r: usize)
        ensures
            r == self.files_spec().len(),
    {
        self.files.len()
    }

    pub fn is_empty(&self) -> (r: bool)
        ensures
            r == (self.files_spec().len() == 0),
    {
        self.files.len() == 0
    }
}

} // verus!
