use musiclang::diagnostic::{SourceId, Span};
use musiclang::token::{classify_word, Token, TokenKind};

#[test]
fn classifies_music_literals() {
    assert_eq!(classify_word("42"), TokenKind::Number);
    assert_eq!(classify_word("1/8"), TokenKind::Duration);
    assert_eq!(classify_word("1//8"), TokenKind::Ident);
    assert_eq!(classify_word("/8"), TokenKind::Ident);
    assert_eq!(classify_word("1/"), TokenKind::Ident);
    assert_eq!(classify_word("a/b"), TokenKind::Ident);
    assert_eq!(classify_word("M3"), TokenKind::Interval);
    assert_eq!(classify_word("C4"), TokenKind::Pitch);
    assert_eq!(classify_word("score"), TokenKind::Score);
    assert_eq!(classify_word("if"), TokenKind::If);
    assert_eq!(classify_word("then"), TokenKind::Then);
    assert_eq!(classify_word("and"), TokenKind::And);
    assert_eq!(classify_word("lead"), TokenKind::Ident);
}

#[test]
fn exposes_token_fields_through_accessors() {
    let token = Token::new(
        TokenKind::Pitch,
        "C4".to_string(),
        Span {
            source_id: SourceId(0),
            start: 0,
            end: 2,
            line: 1,
            column: 1,
        },
    );

    assert_eq!(token.kind(), TokenKind::Pitch);
    assert_eq!(token.text(), "C4");
    assert_eq!(token.span().start, 0);
    assert_eq!(token.span().end, 2);
}

#[test]
fn lowercase_words_classify_as_keywords_or_names() {
    assert_eq!(classify_word("voice"), TokenKind::Voice);
    assert_eq!(classify_word("non_chord_tone"), TokenKind::NonChordTone);
    assert_eq!(classify_word("by"), TokenKind::By);
    assert_eq!(classify_word("melody"), TokenKind::Ident);
    assert_eq!(classify_word("m_two"), TokenKind::Ident);
}
