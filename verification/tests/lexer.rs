use musiclang::lexer::Lexer;
use musiclang::token::TokenKind;

#[test]
fn tokenizes_comments_and_eof() {
    let tokens = Lexer::new("note C4, 1/4 // lead\n").tokenize().unwrap();

    assert_eq!(tokens.last().unwrap().kind(), TokenKind::Eof);
    assert!(tokens.iter().any(|token| token.text() == "note"));
    assert!(!tokens.iter().any(|token| token.text() == "//"));
}

#[test]
fn tokenizes_string_escapes() {
    let tokens = Lexer::new("title \"A \\\"quote\\\"\\nline\"")
        .tokenize()
        .unwrap();
    let string = tokens
        .iter()
        .find(|token| token.kind() == TokenKind::String)
        .unwrap();

    assert_eq!(string.text(), "A \"quote\"\nline");
}

#[test]
fn source_lexer_knows_no_keywords() {
    let tokens = musiclang::lexer::tokenize_source("note C4, 1/4").unwrap();

    assert_eq!(tokens[0].kind(), TokenKind::Ident);
    assert_eq!(tokens[0].text(), "note");
    assert_eq!(tokens[1].kind(), TokenKind::Pitch);
    assert_eq!(tokens[2].kind(), TokenKind::Comma);
    assert_eq!(tokens[3].kind(), TokenKind::Duration);
    assert_eq!(tokens[4].kind(), TokenKind::Eof);
    assert_eq!(tokens[4].span().start, 12);
}

#[test]
fn extended_lexer_classifies_keywords() {
    let tokens = Lexer::new("note C4 * 2").tokenize().unwrap();

    assert_eq!(tokens[0].kind(), TokenKind::Note);
    assert_eq!(tokens[2].kind(), TokenKind::Star);
    assert_eq!(tokens[3].kind(), TokenKind::Number);
}

#[test]
fn source_lexer_keeps_backslashes_in_strings() {
    let tokens = musiclang::lexer::tokenize_source("title \"a\\nb\"").unwrap();

    assert_eq!(tokens[1].kind(), TokenKind::String);
    assert_eq!(tokens[1].text(), "a\\nb");
    assert_eq!(tokens[1].span().start, 6);
    assert_eq!(tokens[1].span().end, 12);
}

#[test]
fn source_lexer_reads_any_slash_word_as_duration() {
    let tokens = musiclang::lexer::tokenize_source("V/V /8").unwrap();

    assert_eq!(tokens[0].kind(), TokenKind::Duration);
    assert_eq!(tokens[0].text(), "V/V");
    assert_eq!(tokens[1].kind(), TokenKind::Duration);
    assert_eq!(tokens[1].text(), "/8");
}

#[test]
fn source_lexer_rejects_operators_it_does_not_know() {
    let diagnostics = musiclang::lexer::tokenize_source("note C4 * 2").unwrap_err();

    assert_eq!(diagnostics.len(), 1);
    assert_eq!(diagnostics[0].code, "ML_LEX_TOKEN");
    assert_eq!(diagnostics[0].column, 9);
}

#[test]
fn unterminated_string_is_a_lex_error() {
    let diagnostics = musiclang::lexer::tokenize_source("title \"open").unwrap_err();

    assert_eq!(diagnostics[0].code, "ML_LEX_STRING");
}
