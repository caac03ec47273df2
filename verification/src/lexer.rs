use vstd::prelude::*;

use crate::diagnostic::{byte_len, Diagnostic, Severity, SourceId, Span};
use crate::text::{append, char_is_ws, char_utf8_len, chars_of, owned, push_char, utf8_len};
use crate::token::{classify_source_word, classify_word, is_word_continue, is_word_start, Token, TokenKind};

verus! {

/// A token whose span lies in `lo..=hi` of source `id`, with a 1-based line and column.
pub open spec fn token_within(t: Token, id: SourceId, lo: nat, hi: nat) -> bool {
    let s = t.span_spec();
    &&& s.source_id == id
    &&& lo <= s.start <= s.end <= hi
    &&& s.line >= 1
    &&& s.column >= 1
}

/// Tokens in source order: each lies within the text and ends before the next starts.
pub open spec fn tokens_in_order(ts: Seq<Token>, id: SourceId, hi: nat) -> bool {
    &&& forall|i: int| 0 <= i < ts.len() ==> token_within(#[trigger] ts[i], id, 0, hi)
    &&& forall|i: int, j: int|
        0 <= i < j < ts.len() ==> (#[trigger] ts[i]).span_spec().end <= (
        #[trigger] ts[j]).span_spec().start
}

/// A lexical diagnostic: an error with code `ML_LEX_TOKEN` or `ML_LEX_STRING`.
pub open spec fn lex_diagnostic(d: Diagnostic) -> bool {
    &&& d.severity == Severity::Error
    &&& (d.code@ == "ML_LEX_TOKEN"@ || d.code@ == "ML_LEX_STRING"@)
    &&& crate::diagnostic::located(d)
}

/// A character that both lexers read without complaint wherever it stands outside a string:
/// whitespace, a character that starts a word, a bracket, `,`, `:`, `+`, `-` or `=`.
pub open spec fn plain_char(c: char) -> bool {
    crate::text::is_ws(c) || crate::token::word_start_spec(c) || c == '{' || c == '}' || c == '['
        || c == ']' || c == '(' || c == ')' || c == ',' || c == ':' || c == '+' || c == '-' || c
        == '='
}

/// A text made of plain characters only (so it holds no string literal).
pub open spec fn plain_text(s: Seq<char>) -> bool {
    forall|i: int| 0 <= i < s.len() ==> plain_char(#[trigger] s[i])
}

/// What tokenizing guarantees of its result.
pub open spec fn lexed(
    source: Seq<char>,
    id: SourceId,
    r: Result<Vec<Token>, Vec<Diagnostic>>,
    extended: bool,
) -> bool {
    match r {
        Ok(tokens) => {
            &&& tokens@.len() >= 1
            &&& tokens@.last().kind_spec() == TokenKind::Eof
            &&& tokens@.last().text_spec().len() == 0
            &&& tokens@.last().span_spec().start == byte_len(source)
            &&& forall|i: int|
                0 <= i < tokens@.len() - 1 ==> (#[trigger] tokens@[i]).kind_spec() != TokenKind::Eof
            &&& tokens_in_order(tokens@, id, byte_len(source))
            &&& exists|runs: Seq<(int, int)>| covers(source, tokens@.drop_last(), runs, extended)
        },
        Err(diagnostics) => {
            &&& diagnostics@.len() >= 1
            &&& forall|i: int|
                0 <= i < diagnostics@.len() ==> lex_diagnostic(#[trigger] diagnostics@[i])
        },
    }
}

/// The characters a punctuation token is written with; `None` for the other kinds. The source
/// lexer (`extended` false) knows only brackets, `,`, `:`, `+`, `-`, `=`, `==` and `..`.
pub open spec fn punct_text(k: TokenKind, extended: bool) -> Option<Seq<char>> {
    if !extended && !source_punct(k) {
        None
    } else {
        punct_chars(k)
    }
}

/// The punctuation that both lexers know.
pub open spec fn source_punct(k: TokenKind) -> bool {
    match k {
        TokenKind::LBrace | TokenKind::RBrace | TokenKind::LBracket | TokenKind::RBracket
        | TokenKind::LParen | TokenKind::RParen | TokenKind::Comma | TokenKind::Colon
        | TokenKind::Plus | TokenKind::Minus | TokenKind::EqEq | TokenKind::Eq
        | TokenKind::DotDot => true,
        _ => false,
    }
}

/// How each punctuation kind is written.
pub open spec fn punct_chars(k: TokenKind) -> Option<Seq<char>> {
    match k {
        TokenKind::LBrace => Some(seq!['{']),
        TokenKind::RBrace => Some(seq!['}']),
        TokenKind::LBracket => Some(seq!['[']),
        TokenKind::RBracket => Some(seq![']']),
        TokenKind::LParen => Some(seq!['(']),
        TokenKind::RParen => Some(seq![')']),
        TokenKind::Comma => Some(seq![',']),
        TokenKind::Colon => Some(seq![':']),
        TokenKind::Plus => Some(seq!['+']),
        TokenKind::Minus => Some(seq!['-']),
        TokenKind::Star => Some(seq!['*']),
        TokenKind::Slash => Some(seq!['/']),
        TokenKind::Pipe => Some(seq!['|', '>']),
        TokenKind::EqEq => Some(seq!['=', '=']),
        TokenKind::NotEq => Some(seq!['!', '=']),
        TokenKind::LtEq => Some(seq!['<', '=']),
        TokenKind::GtEq => Some(seq!['>', '=']),
        TokenKind::Lt => Some(seq!['<']),
        TokenKind::Gt => Some(seq!['>']),
        TokenKind::Eq => Some(seq!['=']),
        TokenKind::DotDot => Some(seq!['.', '.']),
        TokenKind::Dot => Some(seq!['.']),
        _ => None,
    }
}

/// The character that the escape `\c` stands for inside a string literal.
pub open spec fn escaped_char(c: char) -> char {
    if c == 'n' {
        '\n'
    } else if c == 't' {
        '\t'
    } else if c == 'r' {
        '\r'
    } else {
        c
    }
}

/// The body of a string literal with its escapes decoded.
pub open spec fn unescape(s: Seq<char>) -> Seq<char>
    decreases s.len(),
{
    if s.len() == 0 {
        Seq::empty()
    } else if s[0] == '\\' && s.len() >= 2 {
        seq![escaped_char(s[1])] + unescape(s.subrange(2, s.len() as int))
    } else {
        seq![s[0]] + unescape(s.subrange(1, s.len() as int))
    }
}

/// A string body that does not end inside an escape.
pub open spec fn escapes_closed(s: Seq<char>) -> bool
    decreases s.len(),
{
    if s.len() == 0 {
        true
    } else if s[0] == '\\' {
        s.len() >= 2 && escapes_closed(s.subrange(2, s.len() as int))
    } else {
        escapes_closed(s.subrange(1, s.len() as int))
    }
}

/// How the source characters `raw` spell a token of kind `kind` with text `text`: punctuation as
/// written; a string literal between quotes, its body as written or, for the `extended` lexer,
/// with its escapes decoded; or a word, classified by `classify_spec` (extended) or
/// `classify_source_spec`.
pub open spec fn spells(raw: Seq<char>, kind: TokenKind, text: Seq<char>, extended: bool) -> bool {
    match punct_text(kind, extended) {
        Some(p) => raw == p && text == p,
        None => if kind == TokenKind::String {
            &&& raw.len() >= 2
            &&& raw[0] == '"'
            &&& raw.last() == '"'
            &&& text == if extended {
                unescape(raw.subrange(1, raw.len() - 1))
            } else {
                raw.subrange(1, raw.len() - 1)
            }
        } else {
            &&& raw.len() >= 1
            &&& text == raw
            &&& crate::token::word_start_spec(raw[0])
            &&& forall|k: int| 0 <= k < raw.len() ==> word_continue(#[trigger] raw[k])
            &&& kind == if extended {
                crate::token::classify_spec(raw)
            } else {
                crate::token::classify_source_spec(raw)
            }
        },
    }
}

/// Token `t` is spelled by the characters `a..b` of `source`, and its span covers their bytes.
/// A word takes every word character that follows it.
pub open spec fn lexeme(source: Seq<char>, a: int, b: int, t: Token, extended: bool) -> bool {
    &&& 0 <= a < b <= source.len()
    &&& t.span_spec().start == byte_len(source.take(a))
    &&& t.span_spec().end == byte_len(source.take(b))
    &&& spells(source.subrange(a, b), t.kind_spec(), t.text_spec(), extended)
    &&& (punct_text(t.kind_spec(), extended) is None && t.kind_spec() != TokenKind::String) ==> (b
        == source.len() || !word_continue(source[b]))
}

/// Two characters that the lexer reads together: a two-character punctuation, or the `//` that
/// opens a comment.
pub open spec fn joins(c1: char, c2: char, extended: bool) -> bool {
    ||| c1 == '=' && c2 == '='
    ||| c1 == '.' && c2 == '.'
    ||| c1 == '/' && c2 == '/'
    ||| extended && c2 == '=' && (c1 == '<' || c1 == '>' || c1 == '!')
    ||| extended && c1 == '|' && c2 == '>'
}

/// The longest punctuation wins: a one-character punctuation token at `a..b` is not followed
/// by a character that it would be read together with.
pub open spec fn munched(source: Seq<char>, a: int, b: int, t: Token, extended: bool) -> bool {
    (punct_text(t.kind_spec(), extended) matches Some(p) && p.len() == 1 && b < source.len()) ==> !joins(
        source[a],
        source[b],
        extended,
    )
}

proof fn lemma_unescape_append(x: Seq<char>, y: Seq<char>)
    requires
        escapes_closed(x),
    ensures
        unescape(x + y) == unescape(x) + unescape(y),
        escapes_closed(x + y) == escapes_closed(y),
    decreases x.len(),
{
    if x.len() == 0 {
        assert(x + y =~= y);
        assert(unescape(x) + unescape(y) =~= unescape(y));
    } else if x[0] == '\\' {
        let r = x.subrange(2, x.len() as int);
        assert((x + y).subrange(2, (x + y).len() as int) =~= r + y);
        lemma_unescape_append(r, y);
        assert(seq![escaped_char(x[1])] + (unescape(r) + unescape(y)) =~= (seq![escaped_char(x[1])]
            + unescape(r)) + unescape(y));
    } else {
        let r = x.subrange(1, x.len() as int);
        assert((x + y).subrange(1, (x + y).len() as int) =~= r + y);
        lemma_unescape_append(r, y);
        assert(seq![x[0]] + (unescape(r) + unescape(y)) =~= (seq![x[0]] + unescape(r)) + unescape(
            y,
        ));
    }
}

proof fn lemma_unescape_plain(c: char)
    requires
        c != '\\',
    ensures
        unescape(seq![c]) == seq![c],
        escapes_closed(seq![c]),
{
    reveal_with_fuel(unescape, 2);
    reveal_with_fuel(escapes_closed, 2);
    assert(seq![c].subrange(1, 1) =~= Seq::<char>::empty());
    assert(seq![c] + Seq::<char>::empty() =~= seq![c]);
}

proof fn lemma_unescape_escape(e: char)
    ensures
        unescape(seq!['\\', e]) == seq![escaped_char(e)],
        escapes_closed(seq!['\\', e]),
{
    reveal_with_fuel(unescape, 2);
    reveal_with_fuel(escapes_closed, 2);
    assert(seq!['\\', e].subrange(2, 2) =~= Seq::<char>::empty());
    assert(seq![escaped_char(e)] + Seq::<char>::empty() =~= seq![escaped_char(e)]);
}

/// One step over the text between tokens. State 0: outside a comment; 1: after the first `/` of
/// a comment; 2: inside a comment, which a newline ends. `None`: a character that cannot stand
/// there.
pub open spec fn gap_step(m: nat, c: char) -> Option<nat> {
    if m == 0 {
        if crate::text::is_ws(c) {
            Some(0)
        } else if c == '/' {
            Some(1)
        } else {
            None
        }
    } else if m == 1 {
        if c == '/' {
            Some(2)
        } else {
            None
        }
    } else if c == '\n' {
        Some(0)
    } else {
        Some(2)
    }
}

/// The state reached by reading `s` from state `m`, if every step is allowed.
pub open spec fn gap_state(s: Seq<char>, m: nat) -> Option<nat>
    decreases s.len(),
{
    if s.len() == 0 {
        Some(m)
    } else {
        match gap_step(m, s[0]) {
            Some(m2) => gap_state(s.subrange(1, s.len() as int), m2),
            None => None,
        }
    }
}

/// The characters `a..b` of `source` are whitespace and complete `//` comments.
pub open spec fn blank_between(source: Seq<char>, a: int, b: int) -> bool {
    0 <= a <= b <= source.len() && gap_state(source.subrange(a, b), 0) == Some(0nat)
}

/// Where the run before run `i` ends (0 before the first).
pub open spec fn end_before(runs: Seq<(int, int)>, i: int) -> int {
    if i == 0 {
        0
    } else {
        runs[i - 1].1
    }
}

/// The tokens `ts` are spelled, in order, by the runs `runs` of `source`; between them, before
/// the first and after the last stand only whitespace and `//` comments (the last comment may
/// run to the end of the text).
pub open spec fn covers(source: Seq<char>, ts: Seq<Token>, runs: Seq<(int, int)>, extended: bool) -> bool {
    &&& runs.len() == ts.len()
    &&& forall|i: int|
        0 <= i < ts.len() ==> lexeme(source, runs[i].0, runs[i].1, #[trigger] ts[i], extended)
    &&& forall|i: int|
        0 <= i < ts.len() ==> munched(source, runs[i].0, runs[i].1, #[trigger] ts[i], extended)
    &&& forall|i: int|
        0 <= i < runs.len() ==> blank_between(source, end_before(runs, i), (#[trigger] runs[i]).0)
    &&& 0 <= end_before(runs, runs.len() as int) <= source.len()
    &&& gap_state(source.subrange(end_before(runs, runs.len() as int), source.len() as int), 0)
        matches Some(m) && m != 1
}

proof fn lemma_gap_append(x: Seq<char>, y: Seq<char>, m: nat)
    ensures
        gap_state(x + y, m) == match gap_state(x, m) {
            Some(m2) => gap_state(y, m2),
            None => None,
        },
    decreases x.len(),
{
    if x.len() == 0 {
        assert(x + y =~= y);
    } else {
        assert((x + y)[0] == x[0]);
        assert((x + y).subrange(1, (x + y).len() as int) =~= x.subrange(1, x.len() as int) + y);
        match gap_step(m, x[0]) {
            Some(m2) => lemma_gap_append(x.subrange(1, x.len() as int), y, m2),
            None => {},
        }
    }
}

proof fn lemma_gap_push(x: Seq<char>, c: char, m: nat)
    ensures
        gap_state(x.push(c), m) == match gap_state(x, m) {
            Some(m2) => gap_step(m2, c),
            None => None,
        },
{
    lemma_gap_append(x, seq![c], m);
    assert(x + seq![c] =~= x.push(c));
    reveal_with_fuel(gap_state, 2);
    assert(seq![c].subrange(1, 1) =~= Seq::<char>::empty());
}

/// A lexer over a text. The `extended` lexer also knows `*`, `/`, `|>`, `!=`, `<`, `<=`, `>`,
/// `>=` and `.`, decodes escapes in strings and classifies keywords; the source lexer, which
/// `tokenize_source` and the parser use, does none of these.
pub struct Lexer {
    extended: bool,
    source_id: SourceId,
    chars: Vec<char>,
    index: usize,
    byte_index: usize,
    line: usize,
    column: usize,
}

proof fn lemma_byte_len_push(s: Seq<char>, i: int)
    requires
        0 <= i < s.len(),
    ensures
        byte_len(s.take(i + 1)) == byte_len(s.take(i)) + utf8_len(s[i]),
{
    assert(s.take(i + 1).drop_last() =~= s.take(i));
}

proof fn lemma_byte_len_le(s: Seq<char>, i: int)
    requires
        0 <= i <= s.len(),
    ensures
        byte_len(s.take(i)) <= byte_len(s),
        byte_len(s) <= 4 * s.len(),
    decreases s.len() - i,
{
    if i < s.len() {
        lemma_byte_len_push(s, i);
        lemma_byte_len_le(s, i + 1);
    } else {
        assert(s.take(i) =~= s);
        lemma_byte_len_bound(s);
    }
}

proof fn lemma_byte_len_bound(s: Seq<char>)
    ensures
        byte_len(s) <= 4 * s.len(),
    decreases s.len(),
{
    if s.len() > 0 {
        lemma_byte_len_bound(s.drop_last());
    }
}

impl Lexer {
    /// The text the lexer reads.
    pub closed spec fn text_spec(self) -> Seq<char> {
        self.chars@
    }

    /// The source id its spans carry.
    pub closed spec fn id_spec(self) -> SourceId {
        self.source_id
    }

    /// Whether it is the extended lexer.
    pub closed spec fn extended_spec(self) -> bool {
        self.extended
    }

    /// A lexer that has not read anything yet.
    pub closed spec fn fresh(self) -> bool {
        self.wf() && self.index == 0
    }

    closed spec fn wf(self) -> bool {
        &&& self.index <= self.chars@.len()
        &&& 4 * self.chars@.len() + 4 < usize::MAX
        &&& self.byte_index == byte_len(self.chars@.take(self.index as int))
        &&& 1 <= self.line <= self.index + 1
        &&& 1 <= self.column <= self.index + 1
    }

    /// The extended lexer over `source`, with source id 0.
    pub fn new(source: &str) -> (r: Lexer)
        requires
            4 * source@.len() + 4 < usize::MAX,
        ensures
            r.fresh(),
            r.extended_spec(),
            r.id_spec() == SourceId(0),
            r.text_spec() == source@,
    {
        Lexer::with_source_id(SourceId(0), source)
    }

    /// The extended lexer over `source`, with the given source id.
    pub fn with_source_id(source_id: SourceId, source: &str) -> (r: Lexer)
        requires
            4 * source@.len() + 4 < usize::MAX,
        ensures
            r.fresh(),
            r.extended_spec(),
            r.id_spec() == source_id,
            r.text_spec() == source@,
    {
        let chars = chars_of(source);
        assert(chars@.take(0) =~= Seq::<char>::empty());
        Lexer { extended: true, source_id, chars, index: 0, byte_index: 0, line: 1, column: 1 }
    }

    /// The source lexer over `source`, with source id 0.
    fn source_lexer(source: &str) -> (r: Lexer)
        requires
            4 * source@.len() + 4 < usize::MAX,
        ensures
            r.wf(),
            !r.extended,
            r.source_id == SourceId(0),
            r.chars@ == source@,
            r.index == 0,
    {
        let chars = chars_of(source);
        assert(chars@.take(0) =~= Seq::<char>::empty());
        Lexer { extended: false, source_id: SourceId(0), chars, index: 0, byte_index: 0, line: 1, column: 1 }
    }

    fn peek(&self) -> (r: Option<char>)
        ensures
            self.index < self.chars@.len() ==> r == Some(self.chars@[self.index as int]),
            self.index >= self.chars@.len() ==> r is None,
    {
        if self.index < self.chars.len() {
            Some(self.chars[self.index])
        } else {
            None
        }
    }

    fn peek_next(&self) -> (r: Option<char>)
        requires
            self.wf(),
        ensures
            self.index + 1 < self.chars@.len() ==> r == Some(self.chars@[self.index + 1]),
            self.index + 1 >= self.chars@.len() ==> r is None,
    {
        if self.index + 1 < self.chars.len() {
            Some(self.chars[self.index + 1])
        } else {
            None
        }
    }

    fn advance(&mut self) -> (r: Option<char>)
        requires
            old(self).wf(),
        ensures
            final(self).wf(),
            final(self).chars == old(self).chars,
            final(self).extended == old(self).extended,
            final(self).source_id == old(self).source_id,
            old(self).index < old(self).chars@.len() ==> final(self).index == old(self).index + 1
                && r == Some(old(self).chars@[old(self).index as int]),
            old(self).index >= old(self).chars@.len() ==> *final(self) == *old(self) && r is None,
            final(self).byte_index >= old(self).byte_index,
    {
        if self.index >= self.chars.len() {
            return None;
        }
        let ch = self.chars[self.index];
        proof {
            lemma_byte_len_push(self.chars@, self.index as int);
            lemma_byte_len_le(self.chars@, self.index + 1);
        }
        self.index = self.index + 1;
        self.byte_index = self.byte_index + char_utf8_len(ch);
        if ch == '\n' {
            self.line = self.line + 1;
            self.column = 1;
        } else {
            self.column = self.column + 1;
        }
        Some(ch)
    }

    fn span(&self, line: usize, column: usize, start: usize, end: usize) -> (r: Span)
        ensures
            r == (Span { source_id: self.source_id, start, end, line, column }),
    {
        Span { source_id: self.source_id, start, end, line, column }
    }

    fn simple(&mut self, kind: TokenKind) -> (t: Token)
        requires
            old(self).wf(),
            old(self).index < old(self).chars@.len(),
        ensures
            final(self).wf(),
            final(self).chars == old(self).chars,
            final(self).extended == old(self).extended,
            final(self).source_id == old(self).source_id,
            final(self).index == old(self).index + 1,
            t.kind_spec() == kind,
            token_within(t, old(self).source_id, old(self).byte_index as nat, final(self).byte_index as nat),
            punct_text(kind, old(self).extended) == Some(seq![old(self).chars@[old(self).index as int]])
                ==> lexeme(
                old(self).chars@,
                old(self).index as int,
                final(self).index as int,
                t,
                old(self).extended,
            ),
    {
        let line = self.line;
        let column = self.column;
        let start = self.byte_index;
        let mut text = String::new();
        let ghost i = self.index as int;
        match self.advance() {
            Some(c) => push_char(&mut text, c),
            None => {},
        }
        assert(self.chars@.subrange(i, i + 1) =~= text@);
        let span = self.span(line, column, start, self.byte_index);
        Token::new(kind, text, span)
    }

    fn double(&mut self, kind: TokenKind) -> (t: Token)
        requires
            old(self).wf(),
            old(self).index + 1 < old(self).chars@.len(),
        ensures
            final(self).wf(),
            final(self).chars == old(self).chars,
            final(self).extended == old(self).extended,
            final(self).source_id == old(self).source_id,
            final(self).index == old(self).index + 2,
            t.kind_spec() == kind,
            token_within(t, old(self).source_id, old(self).byte_index as nat, final(self).byte_index as nat),
            punct_text(kind, old(self).extended) == Some(
                seq![old(self).chars@[old(self).index as int], old(self).chars@[old(self).index + 1]],
            ) ==> lexeme(
                old(self).chars@,
                old(self).index as int,
                final(self).index as int,
                t,
                old(self).extended,
            ),
    {
        let line = self.line;
        let column = self.column;
        let start = self.byte_index;
        let mut text = String::new();
        let ghost i = self.index as int;
        match self.advance() {
            Some(c) => push_char(&mut text, c),
            None => {},
        }
        match self.advance() {
            Some(c) => push_char(&mut text, c),
            None => {},
        }
        assert(self.chars@.subrange(i, i + 2) =~= text@);
        assert(text@ =~= seq![self.chars@[i], self.chars@[i + 1]]);
        let span = self.span(line, column, start, self.byte_index);
        Token::new(kind, text, span)
    }

    fn string(&mut self, diagnostics: &mut Vec<Diagnostic>) -> (r: Option<Token>)
        requires
            old(self).wf(),
            old(self).index < old(self).chars@.len(),
            old(self).chars@[old(self).index as int] == '"',
            forall|i: int|
                0 <= i < old(diagnostics)@.len() ==> lex_diagnostic(#[trigger] old(diagnostics)@[i]),
        ensures
            final(self).wf(),
            final(self).chars == old(self).chars,
            final(self).extended == old(self).extended,
            final(self).source_id == old(self).source_id,
            final(self).index > old(self).index,
            final(self).byte_index >= old(self).byte_index,
            forall|i: int|
                0 <= i < final(diagnostics)@.len() ==> lex_diagnostic(#[trigger] final(diagnostics)@[i]),
            r matches Some(t) ==> t.kind_spec() == TokenKind::String && token_within(
                t,
                old(self).source_id,
                old(self).byte_index as nat,
                final(self).byte_index as nat,
            ) && final(diagnostics)@ == old(diagnostics)@,
            r matches Some(t) ==> lexeme(
                old(self).chars@,
                old(self).index as int,
                final(self).index as int,
                t,
                old(self).extended,
            ),
            r is None ==> final(diagnostics)@.len() == old(diagnostics)@.len() + 1,
    {
        let line = self.line;
        let column = self.column;
        let start = self.byte_index;
        let ghost i0 = self.index as int;
        self.advance();
        let mut text = String::new();
        proof {
            assert(self.chars@.subrange(i0 + 1, self.index as int) =~= Seq::<char>::empty());
            assert(text@ =~= unescape(Seq::<char>::empty()));
        }
        let extended = self.extended;
        while self.index < self.chars.len()
            invariant_except_break
                extended ==> text@ == unescape(self.chars@.subrange(i0 + 1, self.index as int)),
                extended ==> escapes_closed(self.chars@.subrange(i0 + 1, self.index as int)),
                !extended ==> text@ == self.chars@.subrange(i0 + 1, self.index as int),
            invariant
                self.wf(),
                self.chars == old(self).chars,
                self.extended == old(self).extended,
                self.source_id == old(self).source_id,
                self.index > old(self).index,
                i0 == old(self).index,
                self.byte_index >= start,
                start == old(self).byte_index,
                1 <= line,
                1 <= column,
                extended == self.extended,
                self.chars@[i0] == '"',
                start == byte_len(self.chars@.take(i0)),
                diagnostics@ == old(diagnostics)@,
                forall|i: int|
                    0 <= i < diagnostics@.len() ==> lex_diagnostic(#[trigger] diagnostics@[i]),
            decreases self.chars@.len() - self.index,
        {
            let ch = self.chars[self.index];
            let ghost body = self.chars@.subrange(i0 + 1, self.index as int);
            if ch == '"' {
                let ghost q = self.index as int;
                self.advance();
                let span = self.span(line, column, start, self.byte_index);
                proof {
                    let raw = self.chars@.subrange(i0, q + 1);
                    assert(raw.subrange(1, raw.len() - 1) =~= body);
                    assert(raw[0] == self.chars@[i0]);
                    assert(raw.last() == '"');
                    assert(spells(raw, TokenKind::String, text@, self.extended));
                }
                let tok = Token::new(TokenKind::String, text, span);
                assert(tok.span_spec().end == byte_len(self.chars@.take(self.index as int)));
                assert(lexeme(self.chars@, i0, self.index as int, tok, self.extended));
                return Some(tok);
            }
            if ch == '\\' && extended {
                self.advance();
                if self.index >= self.chars.len() {
                    break;
                }
                let escaped = self.chars[self.index];
                let c = if escaped == 'n' {
                    '\n'
                } else if escaped == 't' {
                    '\t'
                } else if escaped == 'r' {
                    '\r'
                } else {
                    escaped
                };
                push_char(&mut text, c);
                self.advance();
                proof {
                    lemma_unescape_escape(escaped);
                    lemma_unescape_append(body, seq!['\\', escaped]);
                    assert(self.chars@.subrange(i0 + 1, self.index as int) =~= body + seq![
                        '\\',
                        escaped,
                    ]);
                    assert(text@ =~= unescape(body) + seq![escaped_char(escaped)]);
                }
            } else {
                push_char(&mut text, ch);
                self.advance();
                proof {
                    assert(self.chars@.subrange(i0 + 1, self.index as int) =~= body + seq![ch]);
                    if extended {
                        lemma_unescape_plain(ch);
                        lemma_unescape_append(body, seq![ch]);
                        assert(text@ =~= unescape(body) + seq![ch]);
                    }
                }
            }
        }
        let span = self.span(line, column, start, self.byte_index);
        let d = Diagnostic::error("ML_LEX_STRING", "unterminated string literal", line, column);
        let d = d.with_span(span);
        diagnostics.push(d);
        None
    }

    fn word(&mut self) -> (t: Token)
        requires
            old(self).wf(),
            old(self).index < old(self).chars@.len(),
            crate::token::word_start_spec(old(self).chars@[old(self).index as int]),
        ensures
            final(self).wf(),
            final(self).chars == old(self).chars,
            final(self).extended == old(self).extended,
            final(self).source_id == old(self).source_id,
            final(self).index > old(self).index,
            t.kind_spec() != TokenKind::Eof,
            token_within(t, old(self).source_id, old(self).byte_index as nat, final(self).byte_index as nat),
            lexeme(old(self).chars@, old(self).index as int, final(self).index as int, t, old(self).extended),
    {
        let line = self.line;
        let column = self.column;
        let start = self.byte_index;
        let mut text = String::new();
        let ghost i0 = self.index as int;
        while self.index < self.chars.len() && is_word_continue(self.chars[self.index])
            invariant
                self.wf(),
                self.chars == old(self).chars,
                self.extended == old(self).extended,
                self.source_id == old(self).source_id,
                self.index >= old(self).index,
                i0 == old(self).index,
                self.index == old(self).index ==> word_continue(self.chars@[self.index as int]),
                self.byte_index >= start,
                start == old(self).byte_index,
                text@ == self.chars@.subrange(i0, self.index as int),
                forall|k: int| 0 <= k < text@.len() ==> word_continue(#[trigger] text@[k]),
            decreases self.chars@.len() - self.index,
        {
            let ch = self.chars[self.index];
            push_char(&mut text, ch);
            self.advance();
            assert(text@ =~= self.chars@.subrange(i0, self.index as int));
        }
        let kind = if self.extended {
            classify_word(text.as_str())
        } else {
            classify_source_word(text.as_str())
        };
        proof {
            lemma_classify_not_eof(text@);
            lemma_classify_word_kind(text@);
        }
        let span = self.span(line, column, start, self.byte_index);
        Token::new(kind, text, span)
    }

    fn advance_whitespace(&mut self)
        requires
            old(self).wf(),
        ensures
            final(self).wf(),
            final(self).chars == old(self).chars,
            final(self).extended == old(self).extended,
            final(self).source_id == old(self).source_id,
            final(self).index >= old(self).index,
            final(self).byte_index >= old(self).byte_index,
            old(self).index < old(self).chars@.len() && crate::text::is_ws(
                old(self).chars@[old(self).index as int],
            ) ==> final(self).index > old(self).index,
            blank_between(old(self).chars@, old(self).index as int, final(self).index as int),
    {
        let ghost i0 = self.index as int;
        assert(self.chars@.subrange(i0, i0) =~= Seq::<char>::empty());
        while self.index < self.chars.len() && char_is_ws(self.chars[self.index])
            invariant
                self.wf(),
                self.chars == old(self).chars,
                self.extended == old(self).extended,
                self.source_id == old(self).source_id,
                self.index >= old(self).index,
                self.byte_index >= old(self).byte_index,
                self.index == old(self).index ==> self == old(self),
                i0 == old(self).index,
                blank_between(self.chars@, i0, self.index as int),
            decreases self.chars@.len() - self.index,
        {
            let ghost before = self.chars@.subrange(i0, self.index as int);
            let ghost c = self.chars@[self.index as int];
            self.advance();
            proof {
                lemma_gap_push(before, c, 0);
                assert(self.chars@.subrange(i0, self.index as int) =~= before.push(c));
            }
        }
    }

    fn advance_comment(&mut self)
        requires
            old(self).wf(),
            old(self).index + 1 < old(self).chars@.len(),
            old(self).chars@[old(self).index as int] == '/',
            old(self).chars@[old(self).index + 1] == '/',
        ensures
            final(self).wf(),
            final(self).chars == old(self).chars,
            final(self).extended == old(self).extended,
            final(self).source_id == old(self).source_id,
            final(self).index > old(self).index,
            final(self).byte_index >= old(self).byte_index,
            gap_state(old(self).chars@.subrange(old(self).index as int, final(self).index as int), 0)
                matches Some(m) && (m == 0 || (m == 2 && final(self).index == final(self).chars@.len())),
    {
        let ghost i0 = self.index as int;
        assert(self.chars@.subrange(i0, i0) =~= Seq::<char>::empty());
        let mut done = false;
        while !done && self.index < self.chars.len()
            invariant
                self.wf(),
                self.chars == old(self).chars,
                self.extended == old(self).extended,
                self.source_id == old(self).source_id,
                self.index >= old(self).index,
                self.byte_index >= old(self).byte_index,
                self.index == old(self).index ==> self.index < self.chars@.len() && !done,
                i0 == old(self).index,
                i0 + 1 < self.chars@.len(),
                self.chars@[i0] == '/',
                self.chars@[i0 + 1] == '/',
                self.index == i0 + 1 ==> !done && gap_state(
                    self.chars@.subrange(i0, self.index as int),
                    0,
                ) == Some(1nat),
                self.index == i0 ==> gap_state(self.chars@.subrange(i0, self.index as int), 0) == Some(
                    0nat,
                ),
                self.index >= i0 + 2 ==> gap_state(self.chars@.subrange(i0, self.index as int), 0)
                    == Some(if done { 0nat } else { 2nat }),
            decreases self.chars@.len() - self.index,
        {
            let ghost before = self.chars@.subrange(i0, self.index as int);
            let ch = self.chars[self.index];
            self.advance();
            proof {
                lemma_gap_push(before, ch, 0);
                assert(self.chars@.subrange(i0, self.index as int) =~= before.push(ch));
            }
            if ch == '\n' {
                done = true;
            }
        }
    }

    /// Splits the source into tokens, ending with an `Eof` token.
    #[verifier::rlimit(60)]
    #[verifier::spinoff_prover]
    pub fn tokenize(self) -> (r: Result<Vec<Token>, Vec<Diagnostic>>)
        requires
            self.fresh(),
        ensures
            lexed(self.text_spec(), self.id_spec(), r, self.extended_spec()),
            plain_text(self.text_spec()) ==> r is Ok,
    {
        let mut lx = self;
        let ghost src = lx.chars@;
        let ghost id = lx.source_id;
        let ext = lx.extended;
        let mut tokens: Vec<Token> = Vec::new();
        let mut diagnostics: Vec<Diagnostic> = Vec::new();
        let ghost mut runs: Seq<(int, int)> = Seq::empty();
        assert(src.subrange(0, 0) =~= Seq::<char>::empty());
        while lx.index < lx.chars.len()
            invariant
                lx.wf(),
                lx.chars@ == src,
                lx.source_id == id,
                lx.extended == ext,
                forall|i: int|
                    0 <= i < tokens@.len() ==> token_within(#[trigger] tokens@[i], id, 0, lx.byte_index as nat),
                forall|i: int, j: int|
                    0 <= i < j < tokens@.len() ==> (#[trigger] tokens@[i]).span_spec().end <= (
                    #[trigger] tokens@[j]).span_spec().start,
                forall|i: int|
                    0 <= i < tokens@.len() ==> (#[trigger] tokens@[i]).kind_spec() != TokenKind::Eof,
                runs.len() == tokens@.len(),
                forall|i: int|
                    0 <= i < tokens@.len() ==> lexeme(src, runs[i].0, runs[i].1, #[trigger] tokens@[i], ext),
                forall|i: int|
                    0 <= i < tokens@.len() ==> munched(src, runs[i].0, runs[i].1, #[trigger] tokens@[i], ext),
                0 <= end_before(runs, runs.len() as int) <= lx.index,
                diagnostics@.len() == 0 ==> forall|i: int|
                    0 <= i < runs.len() ==> blank_between(src, end_before(runs, i), (#[trigger] runs[i]).0),
                diagnostics@.len() == 0 ==> (gap_state(
                    src.subrange(end_before(runs, runs.len() as int), lx.index as int),
                    0,
                ) matches Some(m) && (m == 0 || (m == 2 && lx.index == src.len()))),
                forall|i: int|
                    0 <= i < diagnostics@.len() ==> lex_diagnostic(#[trigger] diagnostics@[i]),
                plain_text(src) ==> diagnostics@.len() == 0,
            decreases lx.chars@.len() - lx.index,
        {
            let ghost before = lx.byte_index;
            let ghost bi = lx.index as int;
            let ghost le = end_before(runs, runs.len() as int);
            let ch = lx.chars[lx.index];
            let next = lx.peek_next();
            let mut produced: Option<Token> = None;
            if char_is_ws(ch) {
                lx.advance_whitespace();
                proof {
                    lemma_gap_append(src.subrange(le, bi), src.subrange(bi, lx.index as int), 0);
                    assert(src.subrange(le, bi) + src.subrange(bi, lx.index as int) =~= src.subrange(
                        le,
                        lx.index as int,
                    ));
                }
            } else if ch == '/' && next == Some('/') {
                lx.advance_comment();
                proof {
                    lemma_gap_append(src.subrange(le, bi), src.subrange(bi, lx.index as int), 0);
                    assert(src.subrange(le, bi) + src.subrange(bi, lx.index as int) =~= src.subrange(
                        le,
                        lx.index as int,
                    ));
                }
            } else if ch == '{' {
                produced = Some(lx.simple(TokenKind::LBrace));
            } else if ch == '}' {
                produced = Some(lx.simple(TokenKind::RBrace));
            } else if ch == '[' {
                produced = Some(lx.simple(TokenKind::LBracket));
            } else if ch == ']' {
                produced = Some(lx.simple(TokenKind::RBracket));
            } else if ch == '(' {
                produced = Some(lx.simple(TokenKind::LParen));
            } else if ch == ')' {
                produced = Some(lx.simple(TokenKind::RParen));
            } else if ch == ',' {
                produced = Some(lx.simple(TokenKind::Comma));
            } else if ch == ':' {
                produced = Some(lx.simple(TokenKind::Colon));
            } else if ch == '+' {
                produced = Some(lx.simple(TokenKind::Plus));
            } else if ch == '-' {
                produced = Some(lx.simple(TokenKind::Minus));
            } else if ext && ch == '*' {
                produced = Some(lx.simple(TokenKind::Star));
            } else if ext && ch == '/' {
                produced = Some(lx.simple(TokenKind::Slash));
            } else if ext && ch == '|' && next == Some('>') {
                produced = Some(lx.double(TokenKind::Pipe));
            } else if ch == '=' && next == Some('=') {
                produced = Some(lx.double(TokenKind::EqEq));
            } else if ext && ch == '!' && next == Some('=') {
                produced = Some(lx.double(TokenKind::NotEq));
            } else if ext && ch == '<' && next == Some('=') {
                produced = Some(lx.double(TokenKind::LtEq));
            } else if ext && ch == '>' && next == Some('=') {
                produced = Some(lx.double(TokenKind::GtEq));
            } else if ext && ch == '<' {
                produced = Some(lx.simple(TokenKind::Lt));
            } else if ext && ch == '>' {
                produced = Some(lx.simple(TokenKind::Gt));
            } else if ch == '=' {
                produced = Some(lx.simple(TokenKind::Eq));
            } else if ch == '.' && next == Some('.') {
                produced = Some(lx.double(TokenKind::DotDot));
            } else if ext && ch == '.' {
                produced = Some(lx.simple(TokenKind::Dot));
            } else if ch == '"' {
                produced = lx.string(&mut diagnostics);
            } else if is_word_start(ch) {
                produced = Some(lx.word());
            } else {
                let token = lx.simple(TokenKind::Ident);
                let mut message = owned("unexpected character `");
                push_char(&mut message, ch);
                append(&mut message, "`");
                let d = Diagnostic::error(
                    "ML_LEX_TOKEN",
                    message.as_str(),
                    token.span().line,
                    token.span().column,
                );
                diagnostics.push(d.with_span(token.span()));
            }
            match produced {
                Some(t) => {
                    assert(token_within(t, id, before as nat, lx.byte_index as nat));
                    assert(lexeme(src, bi, lx.index as int, t, ext));
                    assert(munched(src, bi, lx.index as int, t, ext));
                    let ghost prev = tokens@;
                    let ghost prev_runs = runs;
                    tokens.push(t);
                    proof {
                        runs = runs.push((bi, lx.index as int));
                        assert(end_before(runs, runs.len() as int) == lx.index);
                        assert(src.subrange(lx.index as int, lx.index as int) =~= Seq::<char>::empty());
                        assert forall|i: int|
                            0 <= i < tokens@.len() implies munched(
                            src,
                            runs[i].0,
                            runs[i].1,
                            #[trigger] tokens@[i],
                            ext,
                        ) by {
                            if i < tokens@.len() - 1 {
                                assert(tokens@[i] == prev[i]);
                                assert(runs[i] == prev_runs[i]);
                            }
                        }
                        assert forall|i: int|
                            0 <= i < tokens@.len() implies lexeme(
                            src,
                            runs[i].0,
                            runs[i].1,
                            #[trigger] tokens@[i],
                            ext,
                        ) by {
                            if i < tokens@.len() - 1 {
                                assert(tokens@[i] == prev[i]);
                                assert(runs[i] == prev_runs[i]);
                            }
                        }
                        if diagnostics@.len() == 0 {
                            assert forall|i: int| 0 <= i < runs.len() implies blank_between(
                                src,
                                end_before(runs, i),
                                (#[trigger] runs[i]).0,
                            ) by {
                                if i < runs.len() - 1 {
                                    assert(runs[i] == prev_runs[i]);
                                    assert(end_before(runs, i) == end_before(prev_runs, i));
                                } else {
                                    assert(end_before(runs, i) == le);
                                }
                            }
                        }
                        assert forall|i: int, j: int|
                            0 <= i < j < tokens@.len() implies (#[trigger] tokens@[i]).span_spec().end
                            <= (#[trigger] tokens@[j]).span_spec().start by {
                            if j == tokens@.len() - 1 {
                                assert(token_within(tokens@[i], id, 0, before as nat));
                            } else {
                                assert(tokens@[i] == prev[i]);
                            }
                        }
                    }
                },
                None => {},
            }
        }
        let span = lx.span(lx.line, lx.column, lx.byte_index, lx.byte_index);
        let eof = Token::new(TokenKind::Eof, String::new(), span);
        proof {
            assert(lx.chars@.take(lx.index as int) =~= src);
        }
        let ghost body = tokens@;
        tokens.push(eof);
        assert(tokens@.drop_last() =~= body);
        if diagnostics.len() == 0 {
            proof {
                assert(covers(src, body, runs, ext));
                assert forall|i: int, j: int|
                    0 <= i < j < tokens@.len() implies (#[trigger] tokens@[i]).span_spec().end <= (
                    #[trigger] tokens@[j]).span_spec().start by {
                    if j == tokens@.len() - 1 {
                        assert(token_within(tokens@[i], id, 0, lx.byte_index as nat));
                    }
                }
            }
            Ok(tokens)
        } else {
            Err(diagnostics)
        }
    }
}

/// A character that continues a word.
pub open spec fn word_continue(c: char) -> bool {
    crate::token::word_continue_spec(c)
}

proof fn lemma_classify_not_eof(t: Seq<char>)
    ensures
        crate::token::classify_spec(t) != TokenKind::Eof,
{
}

proof fn lemma_classify_word_kind(t: Seq<char>)
    ensures
        forall|e: bool| punct_text(#[trigger] crate::token::classify_spec(t), e) is None,
        crate::token::classify_spec(t) != TokenKind::String,
        forall|e: bool| punct_text(#[trigger] crate::token::classify_source_spec(t), e) is None,
        crate::token::classify_source_spec(t) != TokenKind::String,
        crate::token::classify_source_spec(t) != TokenKind::Eof,
{
}

/// Tokenizes source text, counting byte offsets from 0 with source id 0.
pub fn tokenize_source(source: &str) -> (r: Result<Vec<Token>, Vec<Diagnostic>>)
    requires
        4 * source@.len() + 4 < usize::MAX,
    ensures
        lexed(source@, SourceId(0), r, false),
        plain_text(source@) ==> r is Ok,
{
    let lx = Lexer::source_lexer(source);
    lx.tokenize()
}

} // verus!
