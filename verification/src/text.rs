use vstd::prelude::*;
use vstd::string::*;

verus! {

// ---------------------------------------------------------------------------
// Characters
// ---------------------------------------------------------------------------

/// Unicode `White_Space`, the set that `char::is_whitespace` tests.
pub open spec fn is_ws(c: char) -> bool {
    ||| c == ' '
    ||| ('\t' <= c && c <= '\r')
    ||| c == '\u{85}'
    ||| c == '\u{a0}'
    ||| c == '\u{1680}'
    ||| ('\u{2000}' <= c && c <= '\u{200a}')
    ||| c == '\u{2028}'
    ||| c == '\u{2029}'
    ||| c == '\u{202f}'
    ||| c == '\u{205f}'
    ||| c == '\u{3000}'
}

pub fn char_is_ws(c: char) -> (r: bool)
    ensures
        r == is_ws(c),
{
    c == ' ' || ('\t' <= c && c <= '\r') || c == '\u{85}' || c == '\u{a0}' || c == '\u{1680}'
        || ('\u{2000}' <= c && c <= '\u{200a}') || c == '\u{2028}' || c == '\u{2029}'
        || c == '\u{202f}' || c == '\u{205f}' || c == '\u{3000}'
}

pub open spec fn is_digit(c: char) -> bool {
    '0' <= c && c <= '9'
}

pub open spec fn is_ascii_alpha(c: char) -> bool {
    ('a' <= c && c <= 'z') || ('A' <= c && c <= 'Z')
}

pub open spec fn is_ascii_alnum(c: char) -> bool {
    is_ascii_alpha(c) || is_digit(c)
}

pub open spec fn digit_value(c: char) -> nat {
    (c as nat - '0' as nat) as nat
}

/// Number of bytes of `c` in UTF-8.
pub open spec fn utf8_len(c: char) -> nat {
    if (c as nat) < 0x80 {
        1
    } else if (c as nat) < 0x800 {
        2
    } else if (c as nat) < 0x10000 {
        3
    } else {
        4
    }
}

pub fn char_utf8_len(c: char) -> (r: usize)
    ensures
        r == utf8_len(c),
        1 <= r <= 4,
{
    let n = c as u32;
    if n < 0x80 {
        1
    } else if n < 0x800 {
        2
    } else if n < 0x10000 {
        3
    } else {
        4
    }
}

// ---------------------------------------------------------------------------
// Strings as character sequences
// ---------------------------------------------------------------------------

/// The characters of `s`, in order.
pub fn chars_of(s: &str) -> (v: Vec<char>)
    ensures
        v@ == s@,
{
    let mut v: Vec<char> = Vec::new();
    for c in it: s.chars()
        invariant
            v@ == it.seq().take(it.index() as int),
            it.seq() == s@,
    {
        v.push(c);
    }
    v
}

/// Whether two string slices hold the same characters.
pub fn str_eq(a: &str, b: &str) -> (r: bool)
    ensures
        r == (a@ == b@),
{
    let n = a.unicode_len();
    let m = b.unicode_len();
    if n != m {
        return false;
    }
    let mut i: usize = 0;
    while i < n
        invariant
            n == a@.len(),
            m == b@.len(),
            n == m,
            i <= n,
            forall|j: int| 0 <= j < i ==> a@[j] == b@[j],
        decreases n - i,
    {
        if a.get_char(i) != b.get_char(i) {
            return false;
        }
        i = i + 1;
    }
    assert(a@ =~= b@);
    true
}

/// Whether a string holds exactly the characters of `b`.
pub fn text_is(a: &String, b: &str) -> (r: bool)
    ensures
        r == (a@ == b@),
{
    str_eq(a.as_str(), b)
}

/// An owned copy of `s`.
pub fn owned(s: &str) -> (r: String)
    ensures
        r@ == s@,
{
    s.to_owned()
}

/// `a` followed by `b`.
pub fn concat(a: &str, b: &str) -> (r: String)
    ensures
        r@ == a@ + b@,
{
    let mut r = a.to_owned();
    r.append(b);
    r
}

/// `a`, `b` and `c` in a row.
pub fn concat3(a: &str, b: &str, c: &str) -> (r: String)
    ensures
        r@ == a@ + b@ + c@,
{
    let mut r = a.to_owned();
    r.append(b);
    r.append(c);
    r
}

/// Appends one character to a string (`String::push`).
#[verifier::external_body]
pub fn push_char(s: &mut String, c: char)
    ensures
        final(s)@ == old(s)@.push(c),
{
    s.push(c);
}

/// A string made of `v[start..end]`.
pub fn string_from_chars(v: &Vec<char>, start: usize, end: usize) -> (r: String)
    requires
        start <= end <= v@.len(),
    ensures
        r@ == v@.subrange(start as int, end as int),
{
    let mut r = String::new();
    let mut i = start;
    while i < end
        invariant
            start <= i <= end,
            end <= v@.len(),
            r@ == v@.subrange(start as int, i as int),
        decreases end - i,
    {
        push_char(&mut r, v[i]);
        assert(v@.subrange(start as int, i + 1) =~= v@.subrange(start as int, i as int).push(
            v@[i as int],
        ));
        i = i + 1;
    }
    r
}

/// Whether `prefix` starts `s`.
pub open spec fn has_prefix(s: Seq<char>, prefix: Seq<char>) -> bool {
    prefix.len() <= s.len() && s.take(prefix.len() as int) == prefix
}

pub fn starts_with(s: &str, prefix: &str) -> (r: bool)
    ensures
        r == has_prefix(s@, prefix@),
{
    let sv = chars_of(s);
    let pv = chars_of(prefix);
    if pv.len() > sv.len() {
        return false;
    }
    let mut i: usize = 0;
    while i < pv.len()
        invariant
            pv.len() <= sv.len(),
            sv@ == s@,
            pv@ == prefix@,
            i <= pv.len(),
            forall|j: int| 0 <= j < i ==> sv@[j] == pv@[j],
        decreases pv.len() - i,
    {
        if sv[i] != pv[i] {
            assert(s@.take(prefix@.len() as int)[i as int] != prefix@[i as int]);
            return false;
        }
        i = i + 1;
    }
    assert(s@.take(prefix@.len() as int) =~= prefix@);
    true
}

/// `s` without a leading `prefix`, when it has one (`str::strip_prefix`).
pub fn strip_prefix(s: &str, prefix: &str) -> (r: Option<String>)
    ensures
        r is Some <==> has_prefix(s@, prefix@),
        r matches Some(rest) ==> rest@ == s@.skip(prefix@.len() as int),
{
    if starts_with(s, prefix) {
        let sv = chars_of(s);
        let n = prefix.unicode_len();
        let rest = string_from_chars(&sv, n, sv.len());
        assert(sv@.subrange(n as int, sv@.len() as int) =~= s@.skip(n as int));
        Some(rest)
    } else {
        None
    }
}

// ---------------------------------------------------------------------------
// Trimming and splitting
// ---------------------------------------------------------------------------

/// Number of leading whitespace characters.
pub open spec fn lead_ws(s: Seq<char>) -> nat
    decreases s.len(),
{
    if s.len() > 0 && is_ws(s[0]) {
        1 + lead_ws(s.drop_first())
    } else {
        0
    }
}

/// Number of trailing whitespace characters.
pub open spec fn trail_ws(s: Seq<char>) -> nat
    decreases s.len(),
{
    if s.len() > 0 && is_ws(s.last()) {
        1 + trail_ws(s.drop_last())
    } else {
        0
    }
}

/// `s` without leading and trailing whitespace (`str::trim`).
pub open spec fn trim_seq(s: Seq<char>) -> Seq<char> {
    let t = s.skip(lead_ws(s) as int);
    t.take(t.len() - trail_ws(t))
}

proof fn lemma_lead_ws(s: Seq<char>, i: int)
    requires
        0 <= i <= s.len(),
        forall|j: int| 0 <= j < i ==> is_ws(s[j]),
        i == s.len() || !is_ws(s[i]),
    ensures
        lead_ws(s) == i,
    decreases i,
{
    if i > 0 {
        assert forall|j: int| 0 <= j < i - 1 implies is_ws(s.drop_first()[j]) by {
            assert(s.drop_first()[j] == s[j + 1]);
        }
        if i - 1 < s.drop_first().len() {
            assert(s.drop_first()[i - 1] == s[i]);
        }
        lemma_lead_ws(s.drop_first(), i - 1);
    } else {
        if s.len() > 0 {
            assert(!is_ws(s[0]));
        }
    }
}

proof fn lemma_trail_ws(s: Seq<char>, i: int)
    requires
        0 <= i <= s.len(),
        forall|j: int| i <= j < s.len() ==> is_ws(s[j]),
        i == 0 || !is_ws(s[i - 1]),
    ensures
        trail_ws(s) == s.len() - i,
    decreases s.len() - i,
{
    if i < s.len() {
        assert forall|j: int| i <= j < s.drop_last().len() implies is_ws(s.drop_last()[j]) by {
            assert(s.drop_last()[j] == s[j]);
        }
        if i > 0 {
            assert(s.drop_last()[i - 1] == s[i - 1]);
        }
        lemma_trail_ws(s.drop_last(), i);
    } else {
        if s.len() > 0 {
            assert(s.last() == s[i - 1]);
        }
    }
}

/// Start and end of the trimmed part of `v`.
pub fn trim_bounds(v: &Vec<char>) -> (r: (usize, usize))
    ensures
        r.0 <= r.1 <= v@.len(),
        v@.subrange(r.0 as int, r.1 as int) == trim_seq(v@),
{
    let mut start: usize = 0;
    while start < v.len() && char_is_ws(v[start])
        invariant
            start <= v@.len(),
            forall|j: int| 0 <= j < start ==> is_ws(v@[j]),
        decreases v.len() - start,
    {
        start = start + 1;
    }
    proof {
        lemma_lead_ws(v@, start as int);
    }
    let mut end: usize = v.len();
    while end > start && char_is_ws(v[end - 1])
        invariant
            start <= end <= v@.len(),
            forall|j: int| end <= j < v@.len() ==> is_ws(v@[j]),
        decreases end,
    {
        end = end - 1;
    }
    proof {
        let t = v@.skip(start as int);
        assert forall|j: int| end - start <= j < t.len() implies is_ws(t[j]) by {
            assert(t[j] == v@[j + start]);
        }
        if end > start {
            assert(t[end - start - 1] == v@[end - 1]);
        }
        lemma_trail_ws(t, end - start);
        assert(v@.subrange(start as int, end as int) =~= t.take(t.len() - trail_ws(t)));
    }
    (start, end)
}

/// `s` without leading and trailing whitespace (`str::trim`).
pub fn trim(s: &str) -> (r: String)
    ensures
        r@ == trim_seq(s@),
{
    let v = chars_of(s);
    let (a, b) = trim_bounds(&v);
    string_from_chars(&v, a, b)
}

/// Length of the leading run of non-whitespace characters.
pub open spec fn word_len(s: Seq<char>) -> nat
    decreases s.len(),
{
    if s.len() > 0 && !is_ws(s[0]) {
        1 + word_len(s.drop_first())
    } else {
        0
    }
}

/// The whitespace-separated words of `s` (`str::split_whitespace`).
pub open spec fn words(s: Seq<char>) -> Seq<Seq<char>>
    decreases s.len(),
{
    if s.len() == 0 {
        seq![]
    } else if is_ws(s[0]) {
        words(s.drop_first())
    } else {
        let n = word_len(s);
        if 0 < n <= s.len() {
            seq![s.take(n as int)] + words(s.skip(n as int))
        } else {
            seq![]
        }
    }
}

proof fn lemma_word_len(s: Seq<char>, i: int)
    requires
        0 <= i <= s.len(),
        forall|j: int| 0 <= j < i ==> !is_ws(s[j]),
        i == s.len() || is_ws(s[i]),
    ensures
        word_len(s) == i,
    decreases i,
{
    if i > 0 {
        assert forall|j: int| 0 <= j < i - 1 implies !is_ws(s.drop_first()[j]) by {
            assert(s.drop_first()[j] == s[j + 1]);
        }
        if i - 1 < s.drop_first().len() {
            assert(s.drop_first()[i - 1] == s[i]);
        }
        lemma_word_len(s.drop_first(), i - 1);
    } else {
        if s.len() > 0 {
            assert(is_ws(s[0]));
        }
    }
}

/// Views of a vector of strings.
pub open spec fn views(v: Seq<String>) -> Seq<Seq<char>> {
    v.map_values(|s: String| s@)
}

/// The whitespace-separated words of `s`, each as a string.
pub fn split_whitespace(s: &str) -> (r: Vec<String>)
    ensures
        views(r@) == words(s@),
{
    let v = chars_of(s);
    let mut out: Vec<String> = Vec::new();
    let mut i: usize = 0;
    proof {
        assert(v@.skip(0) =~= v@);
    }
    while i < v.len()
        invariant
            i <= v@.len(),
            v@ == s@,
            views(out@) + words(v@.skip(i as int)) == words(v@),
        decreases v.len() - i,
    {
        if char_is_ws(v[i]) {
            proof {
                let t = v@.skip(i as int);
                assert(t.drop_first() =~= v@.skip(i + 1));
            }
            i = i + 1;
        } else {
            let start = i;
            while i < v.len() && !char_is_ws(v[i])
                invariant
                    start <= i <= v@.len(),
                    forall|j: int| start <= j < i ==> !is_ws(v@[j]),
                decreases v.len() - i,
            {
                i = i + 1;
            }
            let w = string_from_chars(&v, start, i);
            proof {
                let t = v@.skip(start as int);
                assert forall|j: int| 0 <= j < i - start implies !is_ws(t[j]) by {
                    assert(t[j] == v@[start + j]);
                }
                if i < v@.len() {
                    assert(t[i - start] == v@[i as int]);
                }
                lemma_word_len(t, i - start);
                assert(t.take(i - start) =~= v@.subrange(start as int, i as int));
                assert(t.skip(i - start) =~= v@.skip(i as int));
                assert(views(out@.push(w)) =~= views(out@).push(w@));
                assert(views(out@).push(w@) + words(v@.skip(i as int)) =~= views(out@) + (seq![
                    w@,
                ] + words(v@.skip(i as int))));
            }
            out.push(w);
        }
    }
    proof {
        assert(v@.skip(v@.len() as int) =~= Seq::<char>::empty());
        assert(views(out@) + Seq::<Seq<char>>::empty() =~= views(out@));
    }
    out
}

/// Index of the first occurrence of `c` in `s`.
pub open spec fn first_index(s: Seq<char>, c: char) -> int
    decreases s.len(),
{
    if s.len() == 0 {
        -1
    } else if s[0] == c {
        0
    } else {
        let k = first_index(s.drop_first(), c);
        if k < 0 {
            -1
        } else {
            k + 1
        }
    }
}

proof fn lemma_first_index(s: Seq<char>, c: char, i: int)
    requires
        0 <= i <= s.len(),
        forall|j: int| 0 <= j < i ==> s[j] != c,
        i == s.len() || s[i] == c,
    ensures
        first_index(s, c) == (if i == s.len() {
            -1
        } else {
            i
        }),
    decreases i,
{
    if i > 0 {
        assert forall|j: int| 0 <= j < i - 1 implies s.drop_first()[j] != c by {
            assert(s.drop_first()[j] == s[j + 1]);
        }
        if i < s.len() {
            assert(s.drop_first()[i - 1] == s[i]);
        }
        lemma_first_index(s.drop_first(), c, i - 1);
    }
}

/// Splits `s` around the first `c` (`str::split_once` with a character).
pub open spec fn split_once_spec(s: Seq<char>, c: char) -> Option<(Seq<char>, Seq<char>)> {
    let k = first_index(s, c);
    if k < 0 {
        None
    } else {
        Some((s.take(k), s.skip(k + 1)))
    }
}

pub fn split_once(s: &str, c: char) -> (r: Option<(String, String)>)
    ensures
        r is Some <==> split_once_spec(s@, c) is Some,
        r matches Some((a, b)) ==> split_once_spec(s@, c) == Some((a@, b@)),
{
    let v = chars_of(s);
    let mut i: usize = 0;
    while i < v.len() && v[i] != c
        invariant
            i <= v@.len(),
            forall|j: int| 0 <= j < i ==> v@[j] != c,
        decreases v.len() - i,
    {
        i = i + 1;
    }
    proof {
        lemma_first_index(v@, c, i as int);
    }
    if i == v.len() {
        None
    } else {
        let a = string_from_chars(&v, 0, i);
        let b = string_from_chars(&v, i + 1, v.len());
        assert(v@.subrange(0, i as int) =~= s@.take(i as int));
        assert(v@.subrange(i + 1, v@.len() as int) =~= s@.skip(i + 1));
        Some((a, b))
    }
}

/// Whether `s` holds `..` at `j`.
pub open spec fn dotdot_at(s: Seq<char>, j: int) -> bool {
    s[j] == '.' && s[j + 1] == '.'
}

/// Index of the first `..` in `s`.
pub open spec fn first_dotdot(s: Seq<char>) -> int
    decreases s.len(),
{
    if s.len() < 2 {
        -1
    } else if s[0] == '.' && s[1] == '.' {
        0
    } else {
        let k = first_dotdot(s.drop_first());
        if k < 0 {
            -1
        } else {
            k + 1
        }
    }
}

proof fn lemma_first_dotdot(s: Seq<char>, i: int)
    requires
        0 <= i,
        i + 1 <= s.len(),
        forall|j: int| 0 <= j < i ==> !#[trigger] dotdot_at(s, j),
        i + 1 == s.len() || (s[i] == '.' && s[i + 1] == '.'),
    ensures
        first_dotdot(s) == (if i + 1 == s.len() {
            -1
        } else {
            i
        }),
    decreases i,
{
    if i > 0 {
        let t = s.drop_first();
        assert forall|j: int| 0 <= j < i - 1 implies !#[trigger] dotdot_at(t, j) by {
            assert(dotdot_at(s, j + 1) == dotdot_at(t, j));
            assert(t[j] == s[j + 1]);
            assert(t[j + 1] == s[j + 2]);
        }
        if i + 1 < s.len() {
            assert(t[i - 1] == s[i]);
            assert(t[i] == s[i + 1]);
        }
        lemma_first_dotdot(t, i - 1);
        assert(!dotdot_at(s, 0));
    }
}

/// Splits `s` around the first `..` (`str::split_once("..")`).
pub open spec fn split_dotdot_spec(s: Seq<char>) -> Option<(Seq<char>, Seq<char>)> {
    let k = first_dotdot(s);
    if k < 0 {
        None
    } else {
        Some((s.take(k), s.skip(k + 2)))
    }
}

pub fn split_once_dotdot(s: &str) -> (r: Option<(String, String)>)
    ensures
        r is Some <==> split_dotdot_spec(s@) is Some,
        r matches Some((a, b)) ==> split_dotdot_spec(s@) == Some((a@, b@)),
{
    let v = chars_of(s);
    if v.len() < 2 {
        return None;
    }
    let mut i: usize = 0;
    while i + 1 < v.len() && !(v[i] == '.' && v[i + 1] == '.')
        invariant
            i + 1 <= v@.len(),
            forall|j: int| 0 <= j < i ==> !#[trigger] dotdot_at(v@, j),
        decreases v.len() - i,
    {
        i = i + 1;
    }
    proof {
        lemma_first_dotdot(v@, i as int);
    }
    if i + 1 == v.len() {
        None
    } else {
        let a = string_from_chars(&v, 0, i);
        let b = string_from_chars(&v, i + 2, v.len());
        assert(v@.subrange(0, i as int) =~= s@.take(i as int));
        assert(v@.subrange(i + 2, v@.len() as int) =~= s@.skip(i + 2));
        Some((a, b))
    }
}

/// The pieces of `s` between occurrences of `c` (`str::split` with a character).
pub open spec fn split_char_spec(s: Seq<char>, c: char) -> Seq<Seq<char>>
    decreases s.len(),
{
    let k = first_index(s, c);
    if k < 0 || k >= s.len() {
        seq![s]
    } else {
        seq![s.take(k)] + split_char_spec(s.skip(k + 1), c)
    }
}

proof fn lemma_first_index_bounds(s: Seq<char>, c: char)
    ensures
        -1 <= first_index(s, c) < s.len(),
        first_index(s, c) >= 0 ==> s[first_index(s, c)] == c,
    decreases s.len(),
{
    if s.len() > 0 && s[0] != c {
        lemma_first_index_bounds(s.drop_first(), c);
    }
}

pub fn split_char(s: &str, c: char) -> (r: Vec<String>)
    ensures
        views(r@) == split_char_spec(s@, c),
{
    let v = chars_of(s);
    let mut out: Vec<String> = Vec::new();
    let mut start: usize = 0;
    let mut i: usize = 0;
    proof {
        assert(v@.skip(0) =~= v@);
    }
    while i < v.len()
        invariant
            start <= i <= v@.len(),
            v@ == s@,
            forall|j: int| start <= j < i ==> v@[j] != c,
            views(out@) + split_char_spec(v@.skip(start as int), c) == split_char_spec(v@, c),
        decreases v.len() - i,
    {
        if v[i] == c {
            let piece = string_from_chars(&v, start, i);
            proof {
                let t = v@.skip(start as int);
                assert forall|j: int| 0 <= j < i - start implies t[j] != c by {
                    assert(t[j] == v@[start + j]);
                }
                assert(t[i - start] == v@[i as int]);
                lemma_first_index(t, c, i - start);
                assert(t.take(i - start) =~= v@.subrange(start as int, i as int));
                assert(t.skip(i - start + 1) =~= v@.skip(i + 1));
                assert(views(out@.push(piece)) =~= views(out@).push(piece@));
                assert(views(out@).push(piece@) + split_char_spec(v@.skip(i + 1), c) =~= views(
                    out@,
                ) + (seq![piece@] + split_char_spec(v@.skip(i + 1), c)));
            }
            out.push(piece);
            start = i + 1;
        }
        i = i + 1;
    }
    let last = string_from_chars(&v, start, v.len());
    proof {
        let t = v@.skip(start as int);
        assert forall|j: int| 0 <= j < t.len() implies t[j] != c by {
            assert(t[j] == v@[start + j]);
        }
        lemma_first_index(t, c, t.len() as int);
        assert(t =~= v@.subrange(start as int, v@.len() as int));
        assert(views(out@.push(last)) =~= views(out@).push(last@));
        assert(views(out@).push(last@) =~= views(out@) + seq![last@]);
    }
    out.push(last);
    out
}

// ---------------------------------------------------------------------------
// Integers
// ---------------------------------------------------------------------------

/// Whether every character of `s` is an ASCII digit.
pub open spec fn all_digits(s: Seq<char>) -> bool {
    forall|i: int| 0 <= i < s.len() ==> is_digit(#[trigger] s[i])
}

/// The value of a run of decimal digits.
pub open spec fn digits_value(s: Seq<char>) -> nat
    decreases s.len(),
{
    if s.len() == 0 {
        0
    } else {
        digits_value(s.drop_last()) * 10 + digit_value(s.last())
    }
}

/// What Rust's integer `from_str` reads from `s`, before its range check:
/// an optional sign (`-` only where `signed`), then at least one digit.
pub open spec fn int_literal_value(s: Seq<char>, signed: bool) -> Option<int> {
    if s.len() > 0 && s[0] == '+' {
        let d = s.drop_first();
        if d.len() > 0 && all_digits(d) {
            Some(digits_value(d) as int)
        } else {
            None
        }
    } else if signed && s.len() > 0 && s[0] == '-' {
        let d = s.drop_first();
        if d.len() > 0 && all_digits(d) {
            Some(-(digits_value(d) as int))
        } else {
            None
        }
    } else if s.len() > 0 && all_digits(s) {
        Some(digits_value(s) as int)
    } else {
        None
    }
}

/// `s` read as an integer in `lo..=hi`, as Rust's `from_str` for that type reads it.
pub open spec fn parse_int_spec(s: Seq<char>, signed: bool, lo: int, hi: int) -> Option<int> {
    match int_literal_value(s, signed) {
        Some(v) => if lo <= v <= hi {
            Some(v)
        } else {
            None
        },
        None => None,
    }
}

proof fn lemma_digits_value_monotone(s: Seq<char>, i: int)
    requires
        0 <= i <= s.len(),
        all_digits(s),
    ensures
        digits_value(s.take(i)) <= digits_value(s),
    decreases s.len() - i,
{
    if i < s.len() {
        lemma_digits_value_monotone(s, i + 1);
        assert(s.take(i + 1).drop_last() =~= s.take(i));
    } else {
        assert(s.take(i) =~= s);
    }
}

/// Reads `v[start..]` as a run of digits, capped: `Some(n)` holds the value when all are
/// digits and the value is below `2^40`, `None` when a non-digit occurs; a value at or
/// above the cap gives `Some(2^40)`.
fn digits_capped(v: &Vec<char>, start: usize) -> (r: Option<u64>)
    requires
        start <= v@.len(),
    ensures
        r is None <==> !all_digits(v@.skip(start as int)),
        r matches Some(n) ==> (n < 0x100_0000_0000 ==> n == digits_value(v@.skip(start as int))),
        r matches Some(n) ==> (n >= 0x100_0000_0000 ==> digits_value(v@.skip(start as int))
            >= 0x100_0000_0000),
        r matches Some(n) ==> n <= 0x100_0000_0000,
{
    let ghost d = v@.skip(start as int);
    let mut i = start;
    let mut acc: u64 = 0;
    let mut capped = false;
    while i < v.len()
        invariant
            start <= i <= v@.len(),
            d == v@.skip(start as int),
            all_digits(v@.subrange(start as int, i as int)),
            !capped ==> acc == digits_value(v@.subrange(start as int, i as int)),
            !capped ==> acc < 0x100_0000_0000,
            capped ==> digits_value(v@.subrange(start as int, i as int)) >= 0x100_0000_0000,
        decreases v.len() - i,
    {
        let c = v[i];
        if !('0' <= c && c <= '9') {
            assert(d[i - start] == c);
            return None;
        }
        let ghost prev = v@.subrange(start as int, i as int);
        let ghost next = v@.subrange(start as int, i + 1);
        assert(next.drop_last() =~= prev);
        assert(next.last() == c);
        assert(digits_value(next) == digits_value(prev) * 10 + digit_value(c));
        if !capped {
            let dv = (c as u32 - '0' as u32) as u64;
            let nacc = acc * 10 + dv;
            if nacc >= 0x100_0000_0000 {
                capped = true;
            } else {
                acc = nacc;
            }
        } else {
            assert(digits_value(next) >= digits_value(prev) * 10) by (nonlinear_arith)
                requires
                    digits_value(next) == digits_value(prev) * 10 + digit_value(c),
            ;
        }
        i = i + 1;
        assert forall|j: int| 0 <= j < next.len() implies is_digit(#[trigger] next[j]) by {
            if j < prev.len() {
                assert(next[j] == prev[j]);
            }
        }
    }
    assert(v@.subrange(start as int, i as int) =~= d);
    if capped {
        Some(0x100_0000_0000)
    } else {
        Some(acc)
    }
}

/// `s` read as an integer in `lo..=hi` (the `from_str` of Rust's integer types).
pub fn parse_int(s: &str, signed: bool, lo: i64, hi: i64) -> (r: Option<i64>)
    requires
        -0x1_0000_0000 <= lo <= hi <= 0x1_0000_0000,
    ensures
        r matches Some(x) ==> parse_int_spec(s@, signed, lo as int, hi as int) == Some(x as int),
        r is None ==> parse_int_spec(s@, signed, lo as int, hi as int) is None,
{
    let v = chars_of(s);
    if v.len() == 0 {
        return None;
    }
    let first = v[0];
    let negative;
    let start: usize;
    if first == '+' {
        negative = false;
        start = 1;
    } else if signed && first == '-' {
        negative = true;
        start = 1;
    } else {
        negative = false;
        start = 0;
    }
    if start == v.len() {
        return None;
    }
    proof {
        assert(v@.drop_first() =~= v@.skip(1));
        assert(v@.skip(0) =~= v@);
    }
    match digits_capped(&v, start) {
        None => None,
        Some(n) => {
            if n >= 0x100_0000_0000 {
                None
            } else {
                let value: i64 = if negative {
                    -(n as i64)
                } else {
                    n as i64
                };
                if lo <= value && value <= hi {
                    Some(value)
                } else {
                    None
                }
            }
        },
    }
}

pub fn parse_u8(s: &str) -> (r: Option<u8>)
    ensures
        r matches Some(x) ==> parse_int_spec(s@, false, 0, 255) == Some(x as int),
        r is None ==> parse_int_spec(s@, false, 0, 255) is None,
{
    match parse_int(s, false, 0, 255) {
        Some(x) => Some(x as u8),
        None => None,
    }
}

pub fn parse_u16(s: &str) -> (r: Option<u16>)
    ensures
        r matches Some(x) ==> parse_int_spec(s@, false, 0, 65535) == Some(x as int),
        r is None ==> parse_int_spec(s@, false, 0, 65535) is None,
{
    match parse_int(s, false, 0, 65535) {
        Some(x) => Some(x as u16),
        None => None,
    }
}

pub fn parse_u32(s: &str) -> (r: Option<u32>)
    ensures
        r matches Some(x) ==> parse_int_spec(s@, false, 0, 0xffff_ffff) == Some(x as int),
        r is None ==> parse_int_spec(s@, false, 0, 0xffff_ffff) is None,
{
    match parse_int(s, false, 0, 0xffff_ffff) {
        Some(x) => Some(x as u32),
        None => None,
    }
}

pub fn parse_i8(s: &str) -> (r: Option<i8>)
    ensures
        r matches Some(x) ==> parse_int_spec(s@, true, -128, 127) == Some(x as int),
        r is None ==> parse_int_spec(s@, true, -128, 127) is None,
{
    match parse_int(s, true, -128, 127) {
        Some(x) => Some(x as i8),
        None => None,
    }
}

pub fn parse_i16(s: &str) -> (r: Option<i16>)
    ensures
        r matches Some(x) ==> parse_int_spec(s@, true, -32768, 32767) == Some(x as int),
        r is None ==> parse_int_spec(s@, true, -32768, 32767) is None,
{
    match parse_int(s, true, -32768, 32767) {
        Some(x) => Some(x as i16),
        None => None,
    }
}

pub fn parse_i32(s: &str) -> (r: Option<i32>)
    ensures
        r matches Some(x) ==> parse_int_spec(s@, true, i32::MIN as int, i32::MAX as int) == Some(
            x as int,
        ),
        r is None ==> parse_int_spec(s@, true, i32::MIN as int, i32::MAX as int) is None,
{
    match parse_int(s, true, -2147483648, 2147483647) {
        Some(x) => Some(x as i32),
        None => None,
    }
}

/// Decimal digits of `n`.
pub open spec fn decimal(n: nat) -> Seq<char>
    decreases n,
{
    if n < 10 {
        seq![(('0' as nat) + n) as char]
    } else {
        decimal(n / 10).push((('0' as nat) + n % 10) as char)
    }
}

/// Decimal text of an integer, with a leading `-` when it is negative.
pub open spec fn int_text(n: int) -> Seq<char> {
    if n < 0 {
        seq!['-'] + decimal((-n) as nat)
    } else {
        decimal(n as nat)
    }
}

/// The decimal text of a number is a run of digits whose value is the number.
pub proof fn lemma_decimal_digits(n: nat)
    ensures
        decimal(n).len() >= 1,
        all_digits(decimal(n)),
        digits_value(decimal(n)) == n,
    decreases n,
{
    if n < 10 {
        let c = (('0' as nat) + n) as char;
        assert(decimal(n) == seq![c]);
        assert(c as nat == '0' as nat + n);
        assert(seq![c].drop_last() =~= Seq::<char>::empty());
        assert(digits_value(seq![c]) == digits_value(seq![c].drop_last()) * 10 + digit_value(c));
        assert(digits_value(Seq::<char>::empty()) == 0);
        assert(digit_value(c) == n);
    } else {
        lemma_decimal_digits(n / 10);
        let c = (('0' as nat) + n % 10) as char;
        let d = decimal(n / 10);
        assert(decimal(n) == d.push(c));
        assert(d.push(c).drop_last() =~= d);
        assert(c as nat == '0' as nat + n % 10);
        assert forall|i: int| 0 <= i < d.push(c).len() implies is_digit(#[trigger] d.push(c)[i]) by {
            if i < d.len() {
                assert(d.push(c)[i] == d[i]);
            }
        }
        assert(digits_value(d.push(c)) == digits_value(d) * 10 + digit_value(c));
        assert(digit_value(c) == n % 10);
        vstd::arithmetic::div_mod::lemma_fundamental_div_mod(n as int, 10);
        assert((n / 10) * 10 + n % 10 == n) by (nonlinear_arith);
    }
}

/// Reading the decimal text of an integer as a signed integer gives the integer back.
pub proof fn lemma_int_text_parses(n: int)
    ensures
        int_literal_value(int_text(n), true) == Some(n),
{
    if n < 0 {
        let d = decimal((-n) as nat);
        lemma_decimal_digits((-n) as nat);
        assert((seq!['-'] + d).drop_first() =~= d);
        assert((seq!['-'] + d)[0] == '-');
    } else {
        lemma_decimal_digits(n as nat);
        assert(is_digit(decimal(n as nat)[0]));
    }
}

fn push_decimal(s: &mut String, n: u64)
    ensures
        final(s)@ == old(s)@ + decimal(n as nat),
    decreases n,
{
    if n < 10 {
        push_char(s, char_of_digit(n));
        assert(old(s)@.push(((('0' as nat) + n) as char)) =~= old(s)@ + decimal(n as nat));
    } else {
        push_decimal(s, n / 10);
        push_char(s, char_of_digit(n % 10));
        assert(old(s)@ + decimal(n as nat / 10) + seq![(('0' as nat) + n % 10) as char] =~= old(
            s,
        )@ + decimal(n as nat));
    }
}

fn char_of_digit(d: u64) -> (c: char)
    requires
        d < 10,
    ensures
        c == ((('0' as nat) + d) as char),
{
    if d == 0 {
        '0'
    } else if d == 1 {
        '1'
    } else if d == 2 {
        '2'
    } else if d == 3 {
        '3'
    } else if d == 4 {
        '4'
    } else if d == 5 {
        '5'
    } else if d == 6 {
        '6'
    } else if d == 7 {
        '7'
    } else if d == 8 {
        '8'
    } else {
        '9'
    }
}

/// Decimal text of `n` (the `Display` of unsigned integers).
pub fn u64_text(n: u64) -> (r: String)
    ensures
        r@ == decimal(n as nat),
{
    let mut s = String::new();
    push_decimal(&mut s, n);
    assert(Seq::<char>::empty() + decimal(n as nat) =~= decimal(n as nat));
    s
}

/// Decimal text of `n` (the `Display` of signed integers).
pub fn i64_text(n: i64) -> (r: String)
    requires
        n > i64::MIN,
    ensures
        r@ == int_text(n as int),
{
    let mut s = String::new();
    if n < 0 {
        push_char(&mut s, '-');
        push_decimal(&mut s, (-n) as u64);
    } else {
        push_decimal(&mut s, n as u64);
        assert(Seq::<char>::empty() + decimal(n as nat) =~= decimal(n as nat));
    }
    s
}

/// Appends `b` to `a`.
pub fn append(a: &mut String, b: &str)
    ensures
        final(a)@ == old(a)@ + b@,
{
    a.append(b);
}

} // verus!
