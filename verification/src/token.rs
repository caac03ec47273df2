use vstd::prelude::*;

use crate::diagnostic::Span;
use crate::music::{interval_from_text, Interval};
use crate::text::{chars_of, is_digit, parse_i32, parse_int_spec, split_once, split_once_spec, str_eq};

verus! {

/// A lexical token: its kind, its text and where it stands.
#[derive(Debug, Clone, PartialEq, Eq)]
pub struct Token {
    pub(crate) kind: TokenKind,
    pub(crate) text: String,
    pub(crate) span: Span,
}

impl Token {
    pub closed spec fn kind_spec(self) -> TokenKind {
        self.kind
    }

    pub closed spec fn text_spec(self) -> Seq<char> {
        self.text@
    }

    pub closed spec fn span_spec(self) -> Span {
        self.span
    }

    pub fn new(kind: TokenKind, text: String, span: Span) -> (r: Token)
        ensures
            r.kind_spec() == kind,
            r.text_spec() == text@,
            r.span_spec() == span,
    {
        Token { kind, text, span }
    }

    /// A copy of the token.
    pub fn duplicate(&self) -> (r: Token)
        ensures
            r == *self,
    {
        Token { kind: self.kind, text: self.text.clone(), span: self.span }
    }

    pub fn kind(&self) -> (r: TokenKind)
        ensures
            r == self.kind_spec(),
    {
        self.kind
    }

    pub fn text(&self) -> (r: &str)
        ensures
            r@ == self.text_spec(),
    {
        self.text.as_str()
    }

    pub fn span(&self) -> (r: Span)
        ensures
            r == self.span_spec(),
    {
        self.span
    }
}

/// Kinds of tokens: literals, keywords and punctuation.
#[derive(Debug, Clone, Copy, PartialEq, Eq, Structural)]
pub enum TokenKind {
    Ident,
    Number,
    Pitch,
    Interval,
    Duration,
    String,
    Style,
    Score,
    Voice,
    Title,
    Composer,
    Tempo,
    Meter,
    Key,
    Program,
    Instrument,
    Channel,
    Volume,
    Pan,
    Note,
    Chord,
    Drum,
    Rest,
    Glissando,
    Tremolo,
    Degree,
    Scale,
    Pedal,
    Ostinato,
    Sequence,
    Tuplet,
    Transpose,
    Arpeggio,
    Strum,
    Roman,
    Progression,
    Cadence,
    Modulate,
    Dynamic,
    Velocity,
    Articulation,
    Section,
    Ornament,
    NonChordTone,
    TuningSystem,
    WorldTradition,
    HistoricalEra,
    HarmonicFunction,
    Let,
    Fn,
    Call,
    For,
    In,
    If,
    Then,
    Else,
    And,
    Or,
    Not,
    Override,
    Allow,
    Reason,
    Play,
    With,
    To,
    Steps,
    Repeats,
    By,
    LBrace,
    RBrace,
    LBracket,
    RBracket,
    LParen,
    RParen,
    Comma,
    Colon,
    Eq,
    EqEq,
    NotEq,
    Lt,
    LtEq,
    Gt,
    GtEq,
    Dot,
    DotDot,
    Pipe,
    Plus,
    Minus,
    Star,
    Slash,
    Eof,
}

/// The keyword that a token kind stands for.
pub open spec fn keyword_text_spec(k: TokenKind) -> Option<Seq<char>> {
    match k {
        TokenKind::Style => Some("style"@),
        TokenKind::Score => Some("score"@),
        TokenKind::Voice => Some("voice"@),
        TokenKind::Title => Some("title"@),
        TokenKind::Composer => Some("composer"@),
        TokenKind::Tempo => Some("tempo"@),
        TokenKind::Meter => Some("meter"@),
        TokenKind::Key => Some("key"@),
        TokenKind::Program => Some("program"@),
        TokenKind::Instrument => Some("instrument"@),
        TokenKind::Channel => Some("channel"@),
        TokenKind::Volume => Some("volume"@),
        TokenKind::Pan => Some("pan"@),
        TokenKind::Note => Some("note"@),
        TokenKind::Chord => Some("chord"@),
        TokenKind::Drum => Some("drum"@),
        TokenKind::Rest => Some("rest"@),
        TokenKind::Glissando => Some("glissando"@),
        TokenKind::Tremolo => Some("tremolo"@),
        TokenKind::Degree => Some("degree"@),
        TokenKind::Scale => Some("scale"@),
        TokenKind::Pedal => Some("pedal"@),
        TokenKind::Ostinato => Some("ostinato"@),
        TokenKind::Sequence => Some("sequence"@),
        TokenKind::Tuplet => Some("tuplet"@),
        TokenKind::Transpose => Some("transpose"@),
        TokenKind::Arpeggio => Some("arpeggio"@),
        TokenKind::Strum => Some("strum"@),
        TokenKind::Roman => Some("roman"@),
        TokenKind::Progression => Some("progression"@),
        TokenKind::Cadence => Some("cadence"@),
        TokenKind::Modulate => Some("modulate"@),
        TokenKind::Dynamic => Some("dynamic"@),
        TokenKind::Velocity => Some("velocity"@),
        TokenKind::Articulation => Some("articulation"@),
        TokenKind::Section => Some("section"@),
        TokenKind::Ornament => Some("ornament"@),
        TokenKind::NonChordTone => Some("non_chord_tone"@),
        TokenKind::TuningSystem => Some("tuning_system"@),
        TokenKind::WorldTradition => Some("world_tradition"@),
        TokenKind::HistoricalEra => Some("historical_era"@),
        TokenKind::HarmonicFunction => Some("harmonic_function"@),
        TokenKind::Let => Some("let"@),
        TokenKind::Fn => Some("fn"@),
        TokenKind::Call => Some("call"@),
        TokenKind::For => Some("for"@),
        TokenKind::In => Some("in"@),
        TokenKind::If => Some("if"@),
        TokenKind::Then => Some("then"@),
        TokenKind::Else => Some("else"@),
        TokenKind::And => Some("and"@),
        TokenKind::Or => Some("or"@),
        TokenKind::Not => Some("not"@),
        TokenKind::Override => Some("override"@),
        TokenKind::Allow => Some("allow"@),
        TokenKind::Reason => Some("reason"@),
        TokenKind::Play => Some("play"@),
        TokenKind::With => Some("with"@),
        TokenKind::To => Some("to"@),
        TokenKind::Steps => Some("steps"@),
        TokenKind::Repeats => Some("repeats"@),
        TokenKind::By => Some("by"@),
        _ => None,
    }
}

/// The keyword kind that a word spells, if any.
pub open spec fn keyword_kind_spec(t: Seq<char>) -> Option<TokenKind> {
    if t == "style"@ {
        Some(TokenKind::Style)
    }     else if t == "score"@ {
        Some(TokenKind::Score)
    }     else if t == "voice"@ {
        Some(TokenKind::Voice)
    }     else if t == "title"@ {
        Some(TokenKind::Title)
    }     else if t == "composer"@ {
        Some(TokenKind::Composer)
    }     else if t == "tempo"@ {
        Some(TokenKind::Tempo)
    }     else if t == "meter"@ {
        Some(TokenKind::Meter)
    }     else if t == "key"@ {
        Some(TokenKind::Key)
    }     else if t == "program"@ {
        Some(TokenKind::Program)
    }     else if t == "instrument"@ {
        Some(TokenKind::Instrument)
    }     else if t == "channel"@ {
        Some(TokenKind::Channel)
    }     else if t == "volume"@ {
        Some(TokenKind::Volume)
    }     else if t == "pan"@ {
        Some(TokenKind::Pan)
    }     else if t == "note"@ {
        Some(TokenKind::Note)
    }     else if t == "chord"@ {
        Some(TokenKind::Chord)
    }     else if t == "drum"@ {
        Some(TokenKind::Drum)
    }     else if t == "rest"@ {
        Some(TokenKind::Rest)
    }     else if t == "glissando"@ {
        Some(TokenKind::Glissando)
    }     else if t == "tremolo"@ {
        Some(TokenKind::Tremolo)
    }     else if t == "degree"@ {
        Some(TokenKind::Degree)
    }     else if t == "scale"@ {
        Some(TokenKind::Scale)
    }     else if t == "pedal"@ {
        Some(TokenKind::Pedal)
    }     else if t == "ostinato"@ {
        Some(TokenKind::Ostinato)
    }     else if t == "sequence"@ {
        Some(TokenKind::Sequence)
    }     else if t == "tuplet"@ {
        Some(TokenKind::Tuplet)
    }     else if t == "transpose"@ {
        Some(TokenKind::Transpose)
    }     else if t == "arpeggio"@ {
        Some(TokenKind::Arpeggio)
    }     else if t == "strum"@ {
        Some(TokenKind::Strum)
    }     else if t == "roman"@ {
        Some(TokenKind::Roman)
    }     else if t == "progression"@ {
        Some(TokenKind::Progression)
    }     else if t == "cadence"@ {
        Some(TokenKind::Cadence)
    }     else if t == "modulate"@ {
        Some(TokenKind::Modulate)
    }     else if t == "dynamic"@ {
        Some(TokenKind::Dynamic)
    }     else if t == "velocity"@ {
        Some(TokenKind::Velocity)
    }     else if t == "articulation"@ {
        Some(TokenKind::Articulation)
    }     else if t == "section"@ {
        Some(TokenKind::Section)
    }     else if t == "ornament"@ {
        Some(TokenKind::Ornament)
    }     else if t == "non_chord_tone"@ {
        Some(TokenKind::NonChordTone)
    }     else if t == "tuning_system"@ {
        Some(TokenKind::TuningSystem)
    }     else if t == "world_tradition"@ {
        Some(TokenKind::WorldTradition)
    }     else if t == "historical_era"@ {
        Some(TokenKind::HistoricalEra)
    }     else if t == "harmonic_function"@ {
        Some(TokenKind::HarmonicFunction)
    }     else if t == "let"@ {
        Some(TokenKind::Let)
    }     else if t == "fn"@ {
        Some(TokenKind::Fn)
    }     else if t == "call"@ {
        Some(TokenKind::Call)
    }     else if t == "for"@ {
        Some(TokenKind::For)
    }     else if t == "in"@ {
        Some(TokenKind::In)
    }     else if t == "if"@ {
        Some(TokenKind::If)
    }     else if t == "then"@ {
        Some(TokenKind::Then)
    }     else if t == "else"@ {
        Some(TokenKind::Else)
    }     else if t == "and"@ {
        Some(TokenKind::And)
    }     else if t == "or"@ {
        Some(TokenKind::Or)
    }     else if t == "not"@ {
        Some(TokenKind::Not)
    }     else if t == "override"@ {
        Some(TokenKind::Override)
    }     else if t == "allow"@ {
        Some(TokenKind::Allow)
    }     else if t == "reason"@ {
        Some(TokenKind::Reason)
    }     else if t == "play"@ {
        Some(TokenKind::Play)
    }     else if t == "with"@ {
        Some(TokenKind::With)
    }     else if t == "to"@ {
        Some(TokenKind::To)
    }     else if t == "steps"@ {
        Some(TokenKind::Steps)
    }     else if t == "repeats"@ {
        Some(TokenKind::Repeats)
    }     else if t == "by"@ {
        Some(TokenKind::By)
    } else {
        None
    }
}

impl TokenKind {
    /// The keyword text of a keyword kind.
    pub fn keyword_text(self) -> (r: Option<&'static str>)
        ensures
            r matches Some(t) ==> keyword_text_spec(self) == Some(t@),
            r is None <==> keyword_text_spec(self) is None,
    {
        match self {
            TokenKind::Style => Some("style"),
            TokenKind::Score => Some("score"),
            TokenKind::Voice => Some("voice"),
            TokenKind::Title => Some("title"),
            TokenKind::Composer => Some("composer"),
            TokenKind::Tempo => Some("tempo"),
            TokenKind::Meter => Some("meter"),
            TokenKind::Key => Some("key"),
            TokenKind::Program => Some("program"),
            TokenKind::Instrument => Some("instrument"),
            TokenKind::Channel => Some("channel"),
            TokenKind::Volume => Some("volume"),
            TokenKind::Pan => Some("pan"),
            TokenKind::Note => Some("note"),
            TokenKind::Chord => Some("chord"),
            TokenKind::Drum => Some("drum"),
            TokenKind::Rest => Some("rest"),
            TokenKind::Glissando => Some("glissando"),
            TokenKind::Tremolo => Some("tremolo"),
            TokenKind::Degree => Some("degree"),
            TokenKind::Scale => Some("scale"),
            TokenKind::Pedal => Some("pedal"),
            TokenKind::Ostinato => Some("ostinato"),
            TokenKind::Sequence => Some("sequence"),
            TokenKind::Tuplet => Some("tuplet"),
            TokenKind::Transpose => Some("transpose"),
            TokenKind::Arpeggio => Some("arpeggio"),
            TokenKind::Strum => Some("strum"),
            TokenKind::Roman => Some("roman"),
            TokenKind::Progression => Some("progression"),
            TokenKind::Cadence => Some("cadence"),
            TokenKind::Modulate => Some("modulate"),
            TokenKind::Dynamic => Some("dynamic"),
            TokenKind::Velocity => Some("velocity"),
            TokenKind::Articulation => Some("articulation"),
            TokenKind::Section => Some("section"),
            TokenKind::Ornament => Some("ornament"),
            TokenKind::NonChordTone => Some("non_chord_tone"),
            TokenKind::TuningSystem => Some("tuning_system"),
            TokenKind::WorldTradition => Some("world_tradition"),
            TokenKind::HistoricalEra => Some("historical_era"),
            TokenKind::HarmonicFunction => Some("harmonic_function"),
            TokenKind::Let => Some("let"),
            TokenKind::Fn => Some("fn"),
            TokenKind::Call => Some("call"),
            TokenKind::For => Some("for"),
            TokenKind::In => Some("in"),
            TokenKind::If => Some("if"),
            TokenKind::Then => Some("then"),
            TokenKind::Else => Some("else"),
            TokenKind::And => Some("and"),
            TokenKind::Or => Some("or"),
            TokenKind::Not => Some("not"),
            TokenKind::Override => Some("override"),
            TokenKind::Allow => Some("allow"),
            TokenKind::Reason => Some("reason"),
            TokenKind::Play => Some("play"),
            TokenKind::With => Some("with"),
            TokenKind::To => Some("to"),
            TokenKind::Steps => Some("steps"),
            TokenKind::Repeats => Some("repeats"),
            TokenKind::By => Some("by"),
            _ => None,
        }
    }
}

fn keyword_kind(t: &str) -> (r: Option<TokenKind>)
    ensures
        r == keyword_kind_spec(t@),
{
    if str_eq(t, "style") {
        Some(TokenKind::Style)
    }     else if str_eq(t, "score") {
        Some(TokenKind::Score)
    }     else if str_eq(t, "voice") {
        Some(TokenKind::Voice)
    }     else if str_eq(t, "title") {
        Some(TokenKind::Title)
    }     else if str_eq(t, "composer") {
        Some(TokenKind::Composer)
    }     else if str_eq(t, "tempo") {
        Some(TokenKind::Tempo)
    }     else if str_eq(t, "meter") {
        Some(TokenKind::Meter)
    }     else if str_eq(t, "key") {
        Some(TokenKind::Key)
    }     else if str_eq(t, "program") {
        Some(TokenKind::Program)
    }     else if str_eq(t, "instrument") {
        Some(TokenKind::Instrument)
    }     else if str_eq(t, "channel") {
        Some(TokenKind::Channel)
    }     else if str_eq(t, "volume") {
        Some(TokenKind::Volume)
    }     else if str_eq(t, "pan") {
        Some(TokenKind::Pan)
    }     else if str_eq(t, "note") {
        Some(TokenKind::Note)
    }     else if str_eq(t, "chord") {
        Some(TokenKind::Chord)
    }     else if str_eq(t, "drum") {
        Some(TokenKind::Drum)
    }     else if str_eq(t, "rest") {
        Some(TokenKind::Rest)
    }     else if str_eq(t, "glissando") {
        Some(TokenKind::Glissando)
    }     else if str_eq(t, "tremolo") {
        Some(TokenKind::Tremolo)
    }     else if str_eq(t, "degree") {
        Some(TokenKind::Degree)
    }     else if str_eq(t, "scale") {
        Some(TokenKind::Scale)
    }     else if str_eq(t, "pedal") {
        Some(TokenKind::Pedal)
    }     else if str_eq(t, "ostinato") {
        Some(TokenKind::Ostinato)
    }     else if str_eq(t, "sequence") {
        Some(TokenKind::Sequence)
    }     else if str_eq(t, "tuplet") {
        Some(TokenKind::Tuplet)
    }     else if str_eq(t, "transpose") {
        Some(TokenKind::Transpose)
    }     else if str_eq(t, "arpeggio") {
        Some(TokenKind::Arpeggio)
    }     else if str_eq(t, "strum") {
        Some(TokenKind::Strum)
    }     else if str_eq(t, "roman") {
        Some(TokenKind::Roman)
    }     else if str_eq(t, "progression") {
        Some(TokenKind::Progression)
    }     else if str_eq(t, "cadence") {
        Some(TokenKind::Cadence)
    }     else if str_eq(t, "modulate") {
        Some(TokenKind::Modulate)
    }     else if str_eq(t, "dynamic") {
        Some(TokenKind::Dynamic)
    }     else if str_eq(t, "velocity") {
        Some(TokenKind::Velocity)
    }     else if str_eq(t, "articulation") {
        Some(TokenKind::Articulation)
    }     else if str_eq(t, "section") {
        Some(TokenKind::Section)
    }     else if str_eq(t, "ornament") {
        Some(TokenKind::Ornament)
    }     else if str_eq(t, "non_chord_tone") {
        Some(TokenKind::NonChordTone)
    }     else if str_eq(t, "tuning_system") {
        Some(TokenKind::TuningSystem)
    }     else if str_eq(t, "world_tradition") {
        Some(TokenKind::WorldTradition)
    }     else if str_eq(t, "historical_era") {
        Some(TokenKind::HistoricalEra)
    }     else if str_eq(t, "harmonic_function") {
        Some(TokenKind::HarmonicFunction)
    }     else if str_eq(t, "let") {
        Some(TokenKind::Let)
    }     else if str_eq(t, "fn") {
        Some(TokenKind::Fn)
    }     else if str_eq(t, "call") {
        Some(TokenKind::Call)
    }     else if str_eq(t, "for") {
        Some(TokenKind::For)
    }     else if str_eq(t, "in") {
        Some(TokenKind::In)
    }     else if str_eq(t, "if") {
        Some(TokenKind::If)
    }     else if str_eq(t, "then") {
        Some(TokenKind::Then)
    }     else if str_eq(t, "else") {
        Some(TokenKind::Else)
    }     else if str_eq(t, "and") {
        Some(TokenKind::And)
    }     else if str_eq(t, "or") {
        Some(TokenKind::Or)
    }     else if str_eq(t, "not") {
        Some(TokenKind::Not)
    }     else if str_eq(t, "override") {
        Some(TokenKind::Override)
    }     else if str_eq(t, "allow") {
        Some(TokenKind::Allow)
    }     else if str_eq(t, "reason") {
        Some(TokenKind::Reason)
    }     else if str_eq(t, "play") {
        Some(TokenKind::Play)
    }     else if str_eq(t, "with") {
        Some(TokenKind::With)
    }     else if str_eq(t, "to") {
        Some(TokenKind::To)
    }     else if str_eq(t, "steps") {
        Some(TokenKind::Steps)
    }     else if str_eq(t, "repeats") {
        Some(TokenKind::Repeats)
    }     else if str_eq(t, "by") {
        Some(TokenKind::By)
    } else {
        None
    }
}

/// A word of digits around one `/`, such as `1/8`.
pub open spec fn looks_like_duration_spec(t: Seq<char>) -> bool {
    match split_once_spec(t, '/') {
        Some((n, d)) => n.len() > 0 && d.len() > 0 && (forall|i: int| 0 <= i < n.len() ==> is_digit(
            #[trigger] n[i],
        )) && (forall|i: int| 0 <= i < d.len() ==> is_digit(#[trigger] d[i])),
        None => false,
    }
}

/// A word that starts with a letter from A to G and holds a digit.
pub open spec fn looks_like_pitch_spec(t: Seq<char>) -> bool {
    t.len() > 0 && 'A' <= t[0] <= 'G' && exists|i: int| 0 <= i < t.len() && is_digit(#[trigger] t[i])
}

/// A word of lowercase ASCII letters and `_`.
pub open spec fn lower_word(t: Seq<char>) -> bool {
    t.len() > 0 && forall|i: int| 0 <= i < t.len() ==> ('a' <= #[trigger] t[i] <= 'z' || t[i] == '_')
}

proof fn lemma_first_index_absent(s: Seq<char>, c: char)
    requires
        forall|i: int| 0 <= i < s.len() ==> #[trigger] s[i] != c,
    ensures
        crate::text::first_index(s, c) == -1,
    decreases s.len(),
{
    if s.len() > 0 {
        assert(s[0] != c);
        assert forall|i: int| 0 <= i < s.drop_first().len() implies #[trigger] s.drop_first()[i] != c by {
            assert(s.drop_first()[i] == s[i + 1]);
        }
        lemma_first_index_absent(s.drop_first(), c);
    }
}

/// A word of lowercase letters is no number, duration, interval or pitch: it is classified
/// as the keyword it spells, or as a name.
pub proof fn lemma_lower_word_classified(t: Seq<char>)
    requires
        lower_word(t),
    ensures
        classify_spec(t) == match keyword_kind_spec(t) {
            Some(k) => k,
            None => TokenKind::Ident,
        },
{
    assert(!crate::text::all_digits(t)) by {
        assert(!is_digit(t[0]));
    }
    lemma_first_index_absent(t, '/');
    reveal_strlit("m2");
    reveal_strlit("M2");
    reveal_strlit("m3");
    reveal_strlit("M3");
    reveal_strlit("P4");
    reveal_strlit("TT");
    reveal_strlit("P5");
    reveal_strlit("m6");
    reveal_strlit("M6");
    reveal_strlit("m7");
    reveal_strlit("M7");
    reveal_strlit("P8");
    assert(interval_from_text(t) is None) by {
        if interval_from_text(t) is Some {
            assert(t[0] == 'm' && t.len() == 2);
            assert(!('a' <= t[1] <= 'z' || t[1] == '_'));
        }
    }
}

/// The word that spells a keyword is classified as that keyword.
#[verifier::spinoff_prover]
#[verifier::rlimit(100)]
pub proof fn lemma_keyword_classifies_back(k: TokenKind)
    ensures
        keyword_text_spec(k) matches Some(t) ==> classify_spec(t) == k,
{
    reveal_strlit("style");
    reveal_strlit("score");
    reveal_strlit("voice");
    reveal_strlit("title");
    reveal_strlit("composer");
    reveal_strlit("tempo");
    reveal_strlit("meter");
    reveal_strlit("key");
    reveal_strlit("program");
    reveal_strlit("instrument");
    reveal_strlit("channel");
    reveal_strlit("volume");
    reveal_strlit("pan");
    reveal_strlit("note");
    reveal_strlit("chord");
    reveal_strlit("drum");
    reveal_strlit("rest");
    reveal_strlit("glissando");
    reveal_strlit("tremolo");
    reveal_strlit("degree");
    reveal_strlit("scale");
    reveal_strlit("pedal");
    reveal_strlit("ostinato");
    reveal_strlit("sequence");
    reveal_strlit("tuplet");
    reveal_strlit("transpose");
    reveal_strlit("arpeggio");
    reveal_strlit("strum");
    reveal_strlit("roman");
    reveal_strlit("progression");
    reveal_strlit("cadence");
    reveal_strlit("modulate");
    reveal_strlit("dynamic");
    reveal_strlit("velocity");
    reveal_strlit("articulation");
    reveal_strlit("section");
    reveal_strlit("ornament");
    reveal_strlit("non_chord_tone");
    reveal_strlit("tuning_system");
    reveal_strlit("world_tradition");
    reveal_strlit("historical_era");
    reveal_strlit("harmonic_function");
    reveal_strlit("let");
    reveal_strlit("fn");
    reveal_strlit("call");
    reveal_strlit("for");
    reveal_strlit("in");
    reveal_strlit("if");
    reveal_strlit("then");
    reveal_strlit("else");
    reveal_strlit("and");
    reveal_strlit("or");
    reveal_strlit("not");
    reveal_strlit("override");
    reveal_strlit("allow");
    reveal_strlit("reason");
    reveal_strlit("play");
    reveal_strlit("with");
    reveal_strlit("to");
    reveal_strlit("steps");
    reveal_strlit("repeats");
    reveal_strlit("by");
    assert("style"@ =~= seq!['s', 't', 'y', 'l', 'e']);
    assert("score"@ =~= seq!['s', 'c', 'o', 'r', 'e']);
    assert("voice"@ =~= seq!['v', 'o', 'i', 'c', 'e']);
    assert("title"@ =~= seq!['t', 'i', 't', 'l', 'e']);
    assert("composer"@ =~= seq!['c', 'o', 'm', 'p', 'o', 's', 'e', 'r']);
    assert("tempo"@ =~= seq!['t', 'e', 'm', 'p', 'o']);
    assert("meter"@ =~= seq!['m', 'e', 't', 'e', 'r']);
    assert("key"@ =~= seq!['k', 'e', 'y']);
    assert("program"@ =~= seq!['p', 'r', 'o', 'g', 'r', 'a', 'm']);
    assert("instrument"@ =~= seq!['i', 'n', 's', 't', 'r', 'u', 'm', 'e', 'n', 't']);
    assert("channel"@ =~= seq!['c', 'h', 'a', 'n', 'n', 'e', 'l']);
    assert("volume"@ =~= seq!['v', 'o', 'l', 'u', 'm', 'e']);
    assert("pan"@ =~= seq!['p', 'a', 'n']);
    assert("note"@ =~= seq!['n', 'o', 't', 'e']);
    assert("chord"@ =~= seq!['c', 'h', 'o', 'r', 'd']);
    assert("drum"@ =~= seq!['d', 'r', 'u', 'm']);
    assert("rest"@ =~= seq!['r', 'e', 's', 't']);
    assert("glissando"@ =~= seq!['g', 'l', 'i', 's', 's', 'a', 'n', 'd', 'o']);
    assert("tremolo"@ =~= seq!['t', 'r', 'e', 'm', 'o', 'l', 'o']);
    assert("degree"@ =~= seq!['d', 'e', 'g', 'r', 'e', 'e']);
    assert("scale"@ =~= seq!['s', 'c', 'a', 'l', 'e']);
    assert("pedal"@ =~= seq!['p', 'e', 'd', 'a', 'l']);
    assert("ostinato"@ =~= seq!['o', 's', 't', 'i', 'n', 'a', 't', 'o']);
    assert("sequence"@ =~= seq!['s', 'e', 'q', 'u', 'e', 'n', 'c', 'e']);
    assert("tuplet"@ =~= seq!['t', 'u', 'p', 'l', 'e', 't']);
    assert("transpose"@ =~= seq!['t', 'r', 'a', 'n', 's', 'p', 'o', 's', 'e']);
    assert("arpeggio"@ =~= seq!['a', 'r', 'p', 'e', 'g', 'g', 'i', 'o']);
    assert("strum"@ =~= seq!['s', 't', 'r', 'u', 'm']);
    assert("roman"@ =~= seq!['r', 'o', 'm', 'a', 'n']);
    assert("progression"@ =~= seq!['p', 'r', 'o', 'g', 'r', 'e', 's', 's', 'i', 'o', 'n']);
    assert("cadence"@ =~= seq!['c', 'a', 'd', 'e', 'n', 'c', 'e']);
    assert("modulate"@ =~= seq!['m', 'o', 'd', 'u', 'l', 'a', 't', 'e']);
    assert("dynamic"@ =~= seq!['d', 'y', 'n', 'a', 'm', 'i', 'c']);
    assert("velocity"@ =~= seq!['v', 'e', 'l', 'o', 'c', 'i', 't', 'y']);
    assert("articulation"@ =~= seq!['a', 'r', 't', 'i', 'c', 'u', 'l', 'a', 't', 'i', 'o', 'n']);
    assert("section"@ =~= seq!['s', 'e', 'c', 't', 'i', 'o', 'n']);
    assert("ornament"@ =~= seq!['o', 'r', 'n', 'a', 'm', 'e', 'n', 't']);
    assert("non_chord_tone"@ =~= seq!['n', 'o', 'n', '_', 'c', 'h', 'o', 'r', 'd', '_', 't', 'o', 'n', 'e']);
    assert("tuning_system"@ =~= seq!['t', 'u', 'n', 'i', 'n', 'g', '_', 's', 'y', 's', 't', 'e', 'm']);
    assert("world_tradition"@ =~= seq!['w', 'o', 'r', 'l', 'd', '_', 't', 'r', 'a', 'd', 'i', 't', 'i', 'o', 'n']);
    assert("historical_era"@ =~= seq!['h', 'i', 's', 't', 'o', 'r', 'i', 'c', 'a', 'l', '_', 'e', 'r', 'a']);
    assert("harmonic_function"@ =~= seq!['h', 'a', 'r', 'm', 'o', 'n', 'i', 'c', '_', 'f', 'u', 'n', 'c', 't', 'i', 'o', 'n']);
    assert("let"@ =~= seq!['l', 'e', 't']);
    assert("fn"@ =~= seq!['f', 'n']);
    assert("call"@ =~= seq!['c', 'a', 'l', 'l']);
    assert("for"@ =~= seq!['f', 'o', 'r']);
    assert("in"@ =~= seq!['i', 'n']);
    assert("if"@ =~= seq!['i', 'f']);
    assert("then"@ =~= seq!['t', 'h', 'e', 'n']);
    assert("else"@ =~= seq!['e', 'l', 's', 'e']);
    assert("and"@ =~= seq!['a', 'n', 'd']);
    assert("or"@ =~= seq!['o', 'r']);
    assert("not"@ =~= seq!['n', 'o', 't']);
    assert("override"@ =~= seq!['o', 'v', 'e', 'r', 'r', 'i', 'd', 'e']);
    assert("allow"@ =~= seq!['a', 'l', 'l', 'o', 'w']);
    assert("reason"@ =~= seq!['r', 'e', 'a', 's', 'o', 'n']);
    assert("play"@ =~= seq!['p', 'l', 'a', 'y']);
    assert("with"@ =~= seq!['w', 'i', 't', 'h']);
    assert("to"@ =~= seq!['t', 'o']);
    assert("steps"@ =~= seq!['s', 't', 'e', 'p', 's']);
    assert("repeats"@ =~= seq!['r', 'e', 'p', 'e', 'a', 't', 's']);
    assert("by"@ =~= seq!['b', 'y']);
    match k {
        TokenKind::Style => lemma_lower_word_classified("style"@),
        TokenKind::Score => lemma_lower_word_classified("score"@),
        TokenKind::Voice => lemma_lower_word_classified("voice"@),
        TokenKind::Title => lemma_lower_word_classified("title"@),
        TokenKind::Composer => lemma_lower_word_classified("composer"@),
        TokenKind::Tempo => lemma_lower_word_classified("tempo"@),
        TokenKind::Meter => lemma_lower_word_classified("meter"@),
        TokenKind::Key => lemma_lower_word_classified("key"@),
        TokenKind::Program => lemma_lower_word_classified("program"@),
        TokenKind::Instrument => lemma_lower_word_classified("instrument"@),
        TokenKind::Channel => lemma_lower_word_classified("channel"@),
        TokenKind::Volume => lemma_lower_word_classified("volume"@),
        TokenKind::Pan => lemma_lower_word_classified("pan"@),
        TokenKind::Note => lemma_lower_word_classified("note"@),
        TokenKind::Chord => lemma_lower_word_classified("chord"@),
        TokenKind::Drum => lemma_lower_word_classified("drum"@),
        TokenKind::Rest => lemma_lower_word_classified("rest"@),
        TokenKind::Glissando => lemma_lower_word_classified("glissando"@),
        TokenKind::Tremolo => lemma_lower_word_classified("tremolo"@),
        TokenKind::Degree => lemma_lower_word_classified("degree"@),
        TokenKind::Scale => lemma_lower_word_classified("scale"@),
        TokenKind::Pedal => lemma_lower_word_classified("pedal"@),
        TokenKind::Ostinato => lemma_lower_word_classified("ostinato"@),
        TokenKind::Sequence => lemma_lower_word_classified("sequence"@),
        TokenKind::Tuplet => lemma_lower_word_classified("tuplet"@),
        TokenKind::Transpose => lemma_lower_word_classified("transpose"@),
        TokenKind::Arpeggio => lemma_lower_word_classified("arpeggio"@),
        TokenKind::Strum => lemma_lower_word_classified("strum"@),
        TokenKind::Roman => lemma_lower_word_classified("roman"@),
        TokenKind::Progression => lemma_lower_word_classified("progression"@),
        TokenKind::Cadence => lemma_lower_word_classified("cadence"@),
        TokenKind::Modulate => lemma_lower_word_classified("modulate"@),
        TokenKind::Dynamic => lemma_lower_word_classified("dynamic"@),
        TokenKind::Velocity => lemma_lower_word_classified("velocity"@),
        TokenKind::Articulation => lemma_lower_word_classified("articulation"@),
        TokenKind::Section => lemma_lower_word_classified("section"@),
        TokenKind::Ornament => lemma_lower_word_classified("ornament"@),
        TokenKind::NonChordTone => lemma_lower_word_classified("non_chord_tone"@),
        TokenKind::TuningSystem => lemma_lower_word_classified("tuning_system"@),
        TokenKind::WorldTradition => lemma_lower_word_classified("world_tradition"@),
        TokenKind::HistoricalEra => lemma_lower_word_classified("historical_era"@),
        TokenKind::HarmonicFunction => lemma_lower_word_classified("harmonic_function"@),
        TokenKind::Let => lemma_lower_word_classified("let"@),
        TokenKind::Fn => lemma_lower_word_classified("fn"@),
        TokenKind::Call => lemma_lower_word_classified("call"@),
        TokenKind::For => lemma_lower_word_classified("for"@),
        TokenKind::In => lemma_lower_word_classified("in"@),
        TokenKind::If => lemma_lower_word_classified("if"@),
        TokenKind::Then => lemma_lower_word_classified("then"@),
        TokenKind::Else => lemma_lower_word_classified("else"@),
        TokenKind::And => lemma_lower_word_classified("and"@),
        TokenKind::Or => lemma_lower_word_classified("or"@),
        TokenKind::Not => lemma_lower_word_classified("not"@),
        TokenKind::Override => lemma_lower_word_classified("override"@),
        TokenKind::Allow => lemma_lower_word_classified("allow"@),
        TokenKind::Reason => lemma_lower_word_classified("reason"@),
        TokenKind::Play => lemma_lower_word_classified("play"@),
        TokenKind::With => lemma_lower_word_classified("with"@),
        TokenKind::To => lemma_lower_word_classified("to"@),
        TokenKind::Steps => lemma_lower_word_classified("steps"@),
        TokenKind::Repeats => lemma_lower_word_classified("repeats"@),
        TokenKind::By => lemma_lower_word_classified("by"@),
        _ => {},
    }
}

/// How a word is classified.
pub open spec fn classify_spec(t: Seq<char>) -> TokenKind {
    if parse_int_spec(t, true, i32::MIN as int, i32::MAX as int) is Some {
        TokenKind::Number
    } else if looks_like_duration_spec(t) {
        TokenKind::Duration
    } else if interval_from_text(t) is Some {
        TokenKind::Interval
    } else if looks_like_pitch_spec(t) {
        TokenKind::Pitch
    } else {
        match keyword_kind_spec(t) {
            Some(k) => k,
            None => TokenKind::Ident,
        }
    }
}

fn all_ascii_digits(s: &str) -> (r: bool)
    ensures
        r == forall|i: int| 0 <= i < s@.len() ==> is_digit(#[trigger] s@[i]),
{
    let v = chars_of(s);
    let mut i: usize = 0;
    while i < v.len()
        invariant
            v@ == s@,
            i <= v@.len(),
            forall|j: int| 0 <= j < i ==> is_digit(#[trigger] v@[j]),
        decreases v.len() - i,
    {
        if !('0' <= v[i] && v[i] <= '9') {
            assert(!is_digit(s@[i as int]));
            return false;
        }
        i = i + 1;
    }
    true
}

fn looks_like_duration(text: &str) -> (r: bool)
    ensures
        r == looks_like_duration_spec(text@),
{
    match split_once(text, '/') {
        Some((n, d)) => n.unicode_len() > 0 && d.unicode_len() > 0 && all_ascii_digits(n.as_str())
            && all_ascii_digits(d.as_str()),
        None => false,
    }
}

fn looks_like_pitch(text: &str) -> (r: bool)
    ensures
        r == looks_like_pitch_spec(text@),
{
    let v = chars_of(text);
    if v.len() == 0 {
        return false;
    }
    if !('A' <= v[0] && v[0] <= 'G') {
        return false;
    }
    let mut i: usize = 0;
    while i < v.len()
        invariant
            v@ == text@,
            v@.len() > 0,
            'A' <= v@[0] <= 'G',
            i <= v@.len(),
            forall|j: int| 0 <= j < i ==> !is_digit(#[trigger] v@[j]),
        decreases v.len() - i,
    {
        if '0' <= v[i] && v[i] <= '9' {
            assert(is_digit(text@[i as int]));
            return true;
        }
        i = i + 1;
    }
    false
}

/// Classifies a word as a number, duration, interval, pitch, keyword or identifier.
pub fn classify_word(text: &str) -> (r: TokenKind)
    ensures
        r == classify_spec(text@),
{
    if parse_i32(text).is_some() {
        return TokenKind::Number;
    }
    if looks_like_duration(text) {
        return TokenKind::Duration;
    }
    if Interval::parse(text).is_ok() {
        return TokenKind::Interval;
    }
    if looks_like_pitch(text) {
        return TokenKind::Pitch;
    }
    match keyword_kind(text) {
        Some(k) => k,
        None => TokenKind::Ident,
    }
}

/// How the source lexer classifies a word: a number, a duration (any word that holds a `/`),
/// an interval name, a pitch, or otherwise an identifier. It knows no keywords.
pub open spec fn classify_source_spec(t: Seq<char>) -> TokenKind {
    if parse_int_spec(t, true, i32::MIN as int, i32::MAX as int) is Some {
        TokenKind::Number
    } else if split_once_spec(t, '/') is Some {
        TokenKind::Duration
    } else if interval_from_text(t) is Some {
        TokenKind::Interval
    } else if looks_like_pitch_spec(t) {
        TokenKind::Pitch
    } else {
        TokenKind::Ident
    }
}

/// Classifies a word as the source lexer does (see `classify_source_spec`).
pub fn classify_source_word(text: &str) -> (r: TokenKind)
    ensures
        r == classify_source_spec(text@),
{
    if parse_i32(text).is_some() {
        return TokenKind::Number;
    }
    if split_once(text, '/').is_some() {
        return TokenKind::Duration;
    }
    if Interval::parse(text).is_ok() {
        return TokenKind::Interval;
    }
    if looks_like_pitch(text) {
        return TokenKind::Pitch;
    }
    TokenKind::Ident
}

/// A character that can start a word.
pub open spec fn word_start_spec(c: char) -> bool {
    crate::text::is_ascii_alnum(c) || c == '_' || c == '#' || c == '/'
}

/// A character that can continue a word.
pub open spec fn word_continue_spec(c: char) -> bool {
    crate::text::is_ascii_alnum(c) || c == '_' || c == '#' || c == '/' || c == 'b'
}

pub(crate) fn is_word_start(ch: char) -> (r: bool)
    ensures
        r == word_start_spec(ch),
{
    ('a' <= ch && ch <= 'z') || ('A' <= ch && ch <= 'Z') || ('0' <= ch && ch <= '9') || ch == '_'
        || ch == '#' || ch == '/'
}

pub(crate) fn is_word_continue(ch: char) -> (r: bool)
    ensures
        r == word_continue_spec(ch),
{
    ('a' <= ch && ch <= 'z') || ('A' <= ch && ch <= 'Z') || ('0' <= ch && ch <= '9') || ch == '_'
        || ch == '#' || ch == '/' || ch == 'b'
}

} // verus!
