use vstd::prelude::*;

use crate::diagnostic::{byte_len, Diagnostic, Severity};
use crate::text::{
    char_utf8_len, chars_of, concat3, is_ascii_alnum, owned, split_char, split_char_spec,
    split_whitespace, str_eq, string_from_chars, utf8_len, views, words,
};

verus! {

/// A character that belongs to a word: an ASCII letter or digit, `_` or `#`.
pub open spec fn word_char(c: char) -> bool {
    is_ascii_alnum(c) || c == '_' || c == '#'
}

pub fn is_word(c: char) -> (r: bool)
    ensures
        r == word_char(c),
{
    ('a' <= c && c <= 'z') || ('A' <= c && c <= 'Z') || ('0' <= c && c <= '9') || c == '_' || c
        == '#'
}

/// A line without one trailing carriage return.
pub open spec fn without_cr(line: Seq<char>) -> Seq<char> {
    if line.len() > 0 && line.last() == '\r' {
        line.drop_last()
    } else {
        line
    }
}

/// The lines of a text: split at newlines, a final empty piece dropped, and a
/// carriage return before each newline removed.
pub open spec fn lines_of(s: Seq<char>) -> Seq<Seq<char>> {
    let parts = split_char_spec(s, '\n');
    let kept = if parts.len() > 0 && parts.last().len() == 0 {
        parts.drop_last()
    } else {
        parts
    };
    kept.map_values(|p: Seq<char>| without_cr(p))
}

fn strip_cr(line: &String) -> (r: String)
    ensures
        r@ == without_cr(line@),
{
    let chars = chars_of(line.as_str());
    let n = chars.len();
    if n > 0 && chars[n - 1] == '\r' {
        let r = string_from_chars(&chars, 0, n - 1);
        assert(r@ =~= line@.drop_last());
        r
    } else {
        line.clone()
    }
}

/// The lines of a text, as `str::lines` gives them.
pub fn lines(source: &str) -> (r: Vec<String>)
    ensures
        views(r@) == lines_of(source@),
{
    let parts = split_char(source, '\n');
    let n = parts.len();
    let keep = if n > 0 && parts[n - 1].as_str().unicode_len() == 0 {
        n - 1
    } else {
        n
    };
    proof {
        if n > 0 {
            assert(views(parts@).last() == parts@[n - 1]@);
        }
    }
    let ghost kept = if views(parts@).len() > 0 && views(parts@).last().len() == 0 {
        views(parts@).drop_last()
    } else {
        views(parts@)
    };
    assert(kept.len() == keep);
    let mut out: Vec<String> = Vec::new();
    let mut i: usize = 0;
    while i < keep
        invariant
            i <= keep,
            keep <= parts@.len(),
            kept.len() == keep,
            forall|k: int| 0 <= k < keep ==> kept[k] == parts@[k]@,
            out@.len() == i,
            forall|k: int| 0 <= k < i ==> (#[trigger] out@[k])@ == without_cr(kept[k]),
        decreases keep - i,
    {
        out.push(strip_cr(&parts[i]));
        i = i + 1;
    }
    assert(views(out@) =~= kept.map_values(|p: Seq<char>| without_cr(p)));
    out
}

/// The start of the word around a position: the first of the word characters
/// that run up to it.
pub open spec fn word_start(chars: Seq<char>, at: int) -> int
    decreases at,
{
    if at <= 0 || !word_char(chars[at - 1]) {
        at
    } else {
        word_start(chars, at - 1)
    }
}

/// The end of the word that runs on from a position.
pub open spec fn word_end(chars: Seq<char>, at: int) -> int
    decreases chars.len() - at,
{
    if at >= chars.len() || !word_char(chars[at]) {
        at
    } else {
        word_end(chars, at + 1)
    }
}

/// The word at a character of a line, where there is one.
pub open spec fn word_at_spec(source: Seq<char>, line: nat, character: nat) -> Option<Seq<char>> {
    let ls = lines_of(source);
    if line >= ls.len() {
        None
    } else {
        let chars = ls[line as int];
        let at: int = if character < chars.len() {
            character as int
        } else {
            chars.len() as int
        };
        let start = word_start(chars, at);
        let end = word_end(chars, at);
        if start < end {
            Some(chars.subrange(start, end))
        } else {
            None
        }
    }
}

proof fn lemma_word_start_bounds(chars: Seq<char>, at: int)
    requires
        0 <= at <= chars.len(),
    ensures
        0 <= word_start(chars, at) <= at,
    decreases at,
{
    if at > 0 && word_char(chars[at - 1]) {
        lemma_word_start_bounds(chars, at - 1);
    }
}

proof fn lemma_word_end_bounds(chars: Seq<char>, at: int)
    requires
        0 <= at <= chars.len(),
    ensures
        at <= word_end(chars, at) <= chars.len(),
    decreases chars.len() - at,
{
    if at < chars.len() && word_char(chars[at]) {
        lemma_word_end_bounds(chars, at + 1);
    }
}

/// The word under a position (a line and a character in it), where there is one.
pub fn word_at(source: &str, line: u32, character: u32) -> (r: Option<String>)
    ensures
        match r {
            Some(w) => word_at_spec(source@, line as nat, character as nat) == Some(w@),
            None => word_at_spec(source@, line as nat, character as nat) is None,
        },
{
    let ls = lines(source);
    if line as usize >= ls.len() {
        return None;
    }
    assert(views(ls@)[line as int] == ls@[line as int]@);
    let chars = chars_of(ls[line as usize].as_str());
    let n = chars.len();
    let at: usize = if (character as usize) < n {
        character as usize
    } else {
        n
    };
    let mut start = at;
    while start > 0 && is_word(chars[start - 1])
        invariant
            start <= at <= n,
            n == chars@.len(),
            word_start(chars@, start as int) == word_start(chars@, at as int),
        decreases start,
    {
        start = start - 1;
    }
    let mut end = at;
    while end < n && is_word(chars[end])
        invariant
            at <= end <= n,
            n == chars@.len(),
            word_end(chars@, end as int) == word_end(chars@, at as int),
        decreases n - end,
    {
        end = end + 1;
    }
    if start < end {
        Some(string_from_chars(&chars, start, end))
    } else {
        None
    }
}

/// The name that a line declares with `style name`, without a trailing `{`.
pub open spec fn declared_style(line: Seq<char>) -> Option<Seq<char>> {
    let ws = words(line);
    if ws.len() >= 2 && ws[0] == "style"@ {
        Some(without_braces(ws[1]))
    } else {
        None
    }
}

/// A word without the `{` at its end.
pub open spec fn without_braces(w: Seq<char>) -> Seq<char>
    decreases w.len(),
{
    if w.len() > 0 && w.last() == '{' {
        without_braces(w.drop_last())
    } else {
        w
    }
}

/// The styles that the lines declare, in order.
pub open spec fn declared_styles(lines: Seq<Seq<char>>) -> Seq<Seq<char>>
    decreases lines.len(),
{
    if lines.len() == 0 {
        Seq::empty()
    } else {
        let rest = declared_styles(lines.drop_last());
        match declared_style(lines.last()) {
            Some(name) => rest.push(name),
            None => rest,
        }
    }
}

fn strip_braces(word: &String) -> (r: String)
    ensures
        r@ == without_braces(word@),
{
    let chars = chars_of(word.as_str());
    let mut n = chars.len();
    assert(chars@.take(n as int) =~= chars@);
    while n > 0 && chars[n - 1] == '{'
        invariant
            n <= chars@.len(),
            without_braces(chars@.take(n as int)) == without_braces(word@),
            chars@ == word@,
        decreases n,
    {
        assert(chars@.take(n as int).drop_last() =~= chars@.take(n - 1));
        n = n - 1;
    }
    let r = string_from_chars(&chars, 0, n);
    assert(r@ =~= chars@.take(n as int));
    r
}

/// The names of the styles that a source declares, one per `style name` line.
pub fn local_style_names(source: &str) -> (r: Vec<String>)
    ensures
        views(r@) == declared_styles(lines_of(source@)),
{
    let ls = lines(source);
    let mut out: Vec<String> = Vec::new();
    let mut i: usize = 0;
    while i < ls.len()
        invariant
            i <= ls@.len(),
            views(ls@) == lines_of(source@),
            views(out@) == declared_styles(views(ls@).take(i as int)),
        decreases ls@.len() - i,
    {
        assert(views(ls@).take(i + 1).drop_last() =~= views(ls@).take(i as int));
        assert(views(ls@).take(i + 1).last() == ls@[i as int]@);
        let ws = split_whitespace(ls[i].as_str());
        if ws.len() >= 2 && str_eq(ws[0].as_str(), "style") {
            assert(views(ws@)[0] == ws@[0]@ && views(ws@)[1] == ws@[1]@);
            let name = strip_braces(&ws[1]);
            out.push(name);
            assert(views(out@) =~= views(out@.drop_last()).push(out@.last()@));
        } else {
            proof {
                if ws@.len() >= 2 {
                    assert(views(ws@)[0] == ws@[0]@);
                }
            }
        }
        i = i + 1;
    }
    assert(views(ls@).take(i as int) =~= views(ls@));
    out
}

/// Whether `p` occurs in `s` at character `k`.
pub open spec fn occurs_at(s: Seq<char>, p: Seq<char>, k: int) -> bool {
    0 <= k && k + p.len() <= s.len() && s.subrange(k, k + p.len()) == p
}

/// The first character at which `p` occurs in `s`, or -1.
pub open spec fn first_occurrence(s: Seq<char>, p: Seq<char>) -> int {
    if exists|k: int| #[trigger] occurs_at(s, p, k) {
        choose|k: int| occurs_at(s, p, k) && forall|j: int| 0 <= j < k ==> !#[trigger] occurs_at(s, p, j)
    } else {
        -1
    }
}

fn occurs(s: &Vec<char>, p: &Vec<char>, k: usize) -> (r: bool)
    requires
        k <= s@.len(),
    ensures
        r == occurs_at(s@, p@, k as int),
{
    let n = s.len();
    if p.len() > n - k {
        return false;
    }
    let mut j: usize = 0;
    while j < p.len()
        invariant
            n == s@.len(),
            j <= p@.len(),
            k + p@.len() <= s@.len(),
            forall|m: int| 0 <= m < j ==> s@[k + m] == p@[m],
        decreases p@.len() - j,
    {
        if s[k + j] != p[j] {
            assert(s@.subrange(k as int, k + p@.len())[j as int] != p@[j as int]);
            return false;
        }
        j = j + 1;
    }
    assert(s@.subrange(k as int, k + p@.len()) =~= p@);
    true
}

/// The character index of the first occurrence of `p` in `s`.
fn find_chars(s: &Vec<char>, p: &Vec<char>) -> (r: Option<usize>)
    ensures
        match r {
            Some(k) => first_occurrence(s@, p@) == k && k <= s@.len(),
            None => first_occurrence(s@, p@) == -1,
        },
{
    let n = s.len();
    let mut k: usize = 0;
    while k < n
        invariant
            n == s@.len(),
            k <= n,
            forall|j: int| 0 <= j < k ==> !#[trigger] occurs_at(s@, p@, j),
        decreases n - k,
    {
        if occurs(s, p, k) {
            proof {
                lemma_first(s@, p@, k as int);
            }
            return Some(k);
        }
        k = k + 1;
    }
    if occurs(s, p, n) {
        proof {
            lemma_first(s@, p@, n as int);
        }
        return Some(n);
    }
    assert(!exists|j: int| #[trigger] occurs_at(s@, p@, j)) by {
        if exists|j: int| #[trigger] occurs_at(s@, p@, j) {
            let j = choose|j: int| #[trigger] occurs_at(s@, p@, j);
            assert(j <= n);
        }
    }
    None
}

proof fn lemma_first(s: Seq<char>, p: Seq<char>, k: int)
    requires
        occurs_at(s, p, k),
        forall|j: int| 0 <= j < k ==> !#[trigger] occurs_at(s, p, j),
    ensures
        first_occurrence(s, p) == k,
{
    let c = choose|c: int| occurs_at(s, p, c) && forall|j: int| 0 <= j < c ==> !#[trigger] occurs_at(s, p, j);
    assert(occurs_at(s, p, c));
    if c < k {
        assert(!occurs_at(s, p, c));
    }
    if c > k {
        assert(!occurs_at(s, p, k));
    }
}

/// The UTF-8 length of the first `k` characters.
fn byte_offset(chars: &Vec<char>, k: usize) -> (r: usize)
    requires
        k <= chars@.len(),
        byte_len(chars@) <= usize::MAX,
    ensures
        r == byte_len(chars@.take(k as int)),
        r <= byte_len(chars@),
{
    proof {
        lemma_byte_len_prefix(chars@, k as int);
    }
    let mut total: usize = 0;
    let mut i: usize = 0;
    while i < k
        invariant
            i <= k <= chars@.len(),
            total == byte_len(chars@.take(i as int)),
            byte_len(chars@) <= usize::MAX,
        decreases k - i,
    {
        assert(chars@.take(i + 1).drop_last() =~= chars@.take(i as int));
        proof {
            lemma_byte_len_prefix(chars@, i + 1);
        }
        total = total + char_utf8_len(chars[i]);
        i = i + 1;
    }
    total
}

proof fn lemma_byte_len_prefix(s: Seq<char>, n: int)
    requires
        0 <= n <= s.len(),
    ensures
        byte_len(s.take(n)) <= byte_len(s),
    decreases s.len() - n,
{
    if n < s.len() {
        lemma_byte_len_prefix(s, n + 1);
        assert(s.take(n + 1).drop_last() =~= s.take(n));
    } else {
        assert(s.take(n) =~= s);
    }
}

proof fn lemma_byte_len_of_bounded(s: Seq<char>)
    ensures
        byte_len(s) <= 4 * s.len(),
    decreases s.len(),
{
    if s.len() > 0 {
        lemma_byte_len_of_bounded(s.drop_last());
    }
}

/// Where a definition of `word` starts: the first line with `fn word`, `let word`
/// or `style word`, and the byte after the keyword and its space.
pub open spec fn definition_of(source: Seq<char>, word: Seq<char>) -> Option<(int, int)> {
    definition_in(lines_of(source), word, 0)
}

/// Where in one line a definition of `word` names it, as a byte offset.
pub open spec fn line_definition(line: Seq<char>, word: Seq<char>) -> Option<int> {
    let f = first_occurrence(line, "fn"@ + seq![' '] + word);
    let l = first_occurrence(line, "let"@ + seq![' '] + word);
    let s = first_occurrence(line, "style"@ + seq![' '] + word);
    if f >= 0 {
        Some(byte_len(line.take(f)) as int + 3)
    } else if l >= 0 {
        Some(byte_len(line.take(l)) as int + 4)
    } else if s >= 0 {
        Some(byte_len(line.take(s)) as int + 6)
    } else {
        None
    }
}

proof fn lemma_definition_after(ls: Seq<Seq<char>>, word: Seq<char>, from: int)
    ensures
        definition_in(ls, word, from) matches Some((l, _)) ==> from <= l < ls.len(),
    decreases ls.len() - from,
{
    if 0 <= from < ls.len() {
        lemma_definition_after(ls, word, from + 1);
    }
}

/// The first definition of `word` in the lines from `from` on.
pub open spec fn definition_in(ls: Seq<Seq<char>>, word: Seq<char>, from: int) -> Option<(int, int)>
    decreases ls.len() - from,
{
    if from < 0 || from >= ls.len() {
        None
    } else {
        match line_definition(ls[from], word) {
            Some(c) => Some((from, c)),
            None => definition_in(ls, word, from + 1),
        }
    }
}

fn keyword_pattern(keyword: &str, word: &str) -> (r: Vec<char>)
    ensures
        r@ == keyword@ + seq![' '] + word@,
{
    let text = concat3(keyword, " ", word);
    proof {
        reveal_strlit(" ");
    }
    chars_of(text.as_str())
}

/// The byte offset just past `p` and one more character, where `p` first occurs in `chars`.
fn offset_after(chars: &Vec<char>, p: &Vec<char>, extra: usize) -> (r: Option<usize>)
    requires
        byte_len(chars@) < usize::MAX / 2,
        extra <= 8,
    ensures
        match r {
            Some(c) => first_occurrence(chars@, p@) >= 0 && c == byte_len(
                chars@.take(first_occurrence(chars@, p@)),
            ) + extra,
            None => first_occurrence(chars@, p@) == -1,
        },
{
    match find_chars(chars, p) {
        Some(k) => Some(byte_offset(chars, k) + extra),
        None => None,
    }
}

/// The byte offset of a definition of `word` in one line, for a line that is not too long.
fn definition_in_line(line: &String, word: &str) -> (r: Option<usize>)
    ensures
        r matches Some(c) ==> line_definition(line@, word@) == Some(c as int),
        r is None ==> line_definition(line@, word@) is None || line@.len() >= usize::MAX / 8,
{
    let chars = chars_of(line.as_str());
    proof {
        lemma_byte_len_of_bounded(chars@);
    }
    if chars.len() >= usize::MAX / 8 {
        return None;
    }
    let f = keyword_pattern("fn", word);
    match offset_after(&chars, &f, 3) {
        Some(c) => return Some(c),
        None => {},
    }
    let l = keyword_pattern("let", word);
    match offset_after(&chars, &l, 4) {
        Some(c) => return Some(c),
        None => {},
    }
    let s = keyword_pattern("style", word);
    offset_after(&chars, &s, 6)
}

/// Where a definition of `word` starts, as a line index and a byte offset in it.
pub fn find_definition(source: &str, word: &str) -> (r: Option<(u32, u32)>)
    ensures
        match r {
            Some((line, character)) => definition_of(source@, word@) matches Some((l, c)) && l
                % 0x1_0000_0000 == line && c == character,
            None => definition_of(source@, word@) matches Some((l, c)) ==> c > u32::MAX || exists|k: int|
                0 <= k <= l && (#[trigger] lines_of(source@)[k]).len() >= usize::MAX / 8,
        },
{
    let ls = lines(source);
    let mut i: usize = 0;
    while i < ls.len()
        invariant
            i <= ls@.len(),
            views(ls@) == lines_of(source@),
            definition_in(lines_of(source@), word@, 0) == definition_in(lines_of(source@), word@, i as int),
        decreases ls@.len() - i,
    {
        assert(views(ls@)[i as int] == ls@[i as int]@);
        match definition_in_line(&ls[i], word) {
            Some(c) => {
                if c > u32::MAX as usize {
                    return None;
                }
                return Some(((i as u64 % 0x1_0000_0000) as u32, c as u32));
            },
            None => {
                if ls[i].as_str().unicode_len() >= usize::MAX / 8 {
                    proof {
                        lemma_definition_after(lines_of(source@), word@, i as int);
                        assert(lines_of(source@)[i as int].len() >= usize::MAX / 8);
                    }
                    return None;
                }
            },
        }
        i = i + 1;
    }
    None
}

/// The description of a word of the language, where it has one.
pub open spec fn keyword_hover(word: Seq<char>) -> Option<Seq<char>> {
    if word == "score"@ {
        Some("score block: top-level musical work"@)
    } else if word == "voice"@ {
        Some("voice block: one MIDI track / musical line"@)
    } else if word == "note"@ {
        Some("note pitch_expr, duration_expr"@)
    } else if word == "chord"@ {
        Some("chord [pitch_expr, ...], duration_expr"@)
    } else if word == "style"@ {
        Some("style declaration activates music-theory checks"@)
    } else if word == "override"@ {
        Some("override rule allow { ... } suppresses a local style rule"@)
    } else if word == "scale"@ {
        Some("style rule: pitch classes must belong to active scale"@)
    } else if word == "chord_vocab"@ {
        Some("style rule: chords must belong to configured vocabulary"@)
    } else if word == "meter"@ {
        Some("score metadata and style rule for time signature"@)
    } else if word == "tempo_range"@ {
        Some("style rule: tempo must be inside configured BPM range"@)
    } else if word == "instrument_range"@ {
        Some("style rule: pitch must fit configured MIDI program range"@)
    } else {
        None
    }
}

/// What hovering over a word shows: a style that the source declares, else the
/// description of a word of the language.
pub open spec fn hover_of(source: Seq<char>, word: Seq<char>) -> Option<Seq<char>> {
    if declared_styles(lines_of(source)).contains(word) {
        Some("style `"@ + word + "`: local MusicLang style declaration"@)
    } else {
        keyword_hover(word)
    }
}

/// What hovering over a word shows: a local style, or a word of the language.
pub fn hover_text(source: &str, word: &str) -> (r: Option<String>)
    ensures
        match r {
            Some(t) => hover_of(source@, word@) == Some(t@),
            None => hover_of(source@, word@) is None,
        },
{
    let styles = local_style_names(source);
    let mut i: usize = 0;
    while i < styles.len()
        invariant
            i <= styles@.len(),
            views(styles@) == declared_styles(lines_of(source@)),
            forall|k: int| 0 <= k < i ==> views(styles@)[k] != word@,
        decreases styles@.len() - i,
    {
        if str_eq(styles[i].as_str(), word) {
            assert(views(styles@)[i as int] == word@);
            assert(declared_styles(lines_of(source@)).contains(word@));
            let r = concat3("style `", word, "`: local MusicLang style declaration");
            return Some(r);
        }
        assert(views(styles@)[i as int] == styles@[i as int]@);
        i = i + 1;
    }
    assert(!declared_styles(lines_of(source@)).contains(word@));
    let text = if str_eq(word, "score") {
        "score block: top-level musical work"
    } else if str_eq(word, "voice") {
        "voice block: one MIDI track / musical line"
    } else if str_eq(word, "note") {
        "note pitch_expr, duration_expr"
    } else if str_eq(word, "chord") {
        "chord [pitch_expr, ...], duration_expr"
    } else if str_eq(word, "style") {
        "style declaration activates music-theory checks"
    } else if str_eq(word, "override") {
        "override rule allow { ... } suppresses a local style rule"
    } else if str_eq(word, "scale") {
        "style rule: pitch classes must belong to active scale"
    } else if str_eq(word, "chord_vocab") {
        "style rule: chords must belong to configured vocabulary"
    } else if str_eq(word, "meter") {
        "score metadata and style rule for time signature"
    } else if str_eq(word, "tempo_range") {
        "style rule: tempo must be inside configured BPM range"
    } else if str_eq(word, "instrument_range") {
        "style rule: pitch must fit configured MIDI program range"
    } else {
        return None;
    };
    Some(owned(text))
}

/// The keywords that completion offers.
pub fn completion_keywords() -> (r: Vec<&'static str>)
    ensures
        r@.map_values(|k: &'static str| k@) == seq![
            "style"@, "score"@, "voice"@, "tempo"@, "meter"@, "program"@, "instrument"@,
            "note"@, "chord"@, "let"@, "for"@, "if"@, "fn"@, "call"@, "override"@, "allow"@,
            "reason"@, "scale"@, "chord_vocab"@, "tempo_range"@, "instrument_range"@,
            "parallel_fifths"@, "voice_crossing"@,
        ],
{
    vec![
        "style",
        "score",
        "voice",
        "tempo",
        "meter",
        "program",
        "instrument",
        "note",
        "chord",
        "let",
        "for",
        "if",
        "fn",
        "call",
        "override",
        "allow",
        "reason",
        "scale",
        "chord_vocab",
        "tempo_range",
        "instrument_range",
        "parallel_fifths",
        "voice_crossing",
    ]
}

/// The editor's severity code of a diagnostic: 1 for an error, 2 for a warning.
pub fn lsp_severity(d: &Diagnostic) -> (r: u8)
    ensures
        r == match d.severity {
            Severity::Error => 1u8,
            Severity::Warning => 2u8,
        },
{
    match d.severity {
        Severity::Error => 1,
        Severity::Warning => 2,
    }
}

/// The source that the editor names for every diagnostic.
pub fn diagnostic_source() -> (r: &'static str)
    ensures
        r@ == "musiclang"@,
{
    "musiclang"
}

/// The zero-based line and column of a diagnostic, and the column after it.
pub fn diagnostic_position(d: &Diagnostic) -> (r: (u32, u32, u32))
    ensures
        r.0 as int == (if d.line == 0 {
            0
        } else {
            d.line - 1
        }) % 0x1_0000_0000,
        r.1 as int == (if d.column == 0 {
            0
        } else {
            d.column - 1
        }) % 0x1_0000_0000,
        r.2 == if r.1 == u32::MAX {
            u32::MAX
        } else {
            (r.1 + 1) as u32
        },
{
    let line = if d.line == 0 {
        0
    } else {
        d.line - 1
    };
    let column = if d.column == 0 {
        0
    } else {
        d.column - 1
    };
    let l = (line as u64 % 0x1_0000_0000) as u32;
    let c = (column as u64 % 0x1_0000_0000) as u32;
    let end = if c == u32::MAX {
        u32::MAX
    } else {
        c + 1
    };
    (l, c, end)
}

} // verus!
