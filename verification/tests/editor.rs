use musiclang::diagnostic::Diagnostic;
use musiclang::editor::{
    completion_keywords, diagnostic_position, diagnostic_source, find_definition, hover_text, lines,
    local_style_names, lsp_severity, word_at,
};
use musiclang::style::{built_in_styles, StyleContext};

#[test]
fn finds_word_at_position() {
    let source = "score demo {\n  voice lead {\n    note C4, 1/4\n  }\n}";

    assert_eq!(word_at(source, 2, 5).as_deref(), Some("note"));
}

#[test]
fn completion_includes_style_rules() {
    let keywords = completion_keywords();

    assert!(keywords.iter().any(|label| *label == "chord_vocab"));
    assert!(keywords.iter().any(|label| *label == "instrument_range"));
}

#[test]
fn completion_includes_builtin_style_names() {
    let styles = built_in_styles();

    assert!(styles
        .iter()
        .any(|style| style.id == "Classical" && style.name == "Classical common-practice"));
    assert!(styles.iter().any(|style| style.id == "Jazz"));
}

#[test]
fn completion_includes_local_style_names() {
    let source = "style Chamber {\n  scale: C D E\n}\nscore demo style Chamber {\n}";

    assert!(local_style_names(source).iter().any(|name| name == "Chamber"));
}

#[test]
fn hover_describes_style_rule() {
    let source = "style Test {\n  scale: C D E\n}";
    let word = word_at(source, 1, 3).unwrap();
    let hover = hover_text(source, &word).unwrap();

    assert!(hover.contains("pitch classes"));
}

#[test]
fn hover_describes_local_style() {
    let source = "style Chamber {\n  scale: C D E\n}\nscore demo style Chamber {\n}";
    let word = word_at(source, 3, 18).unwrap();
    let hover = hover_text(source, &word).unwrap();

    assert!(hover.contains("local MusicLang style"));
}

#[test]
fn converts_compiler_diagnostic_to_lsp_range() {
    let diagnostic = Diagnostic::error("ML_TEST", "example diagnostic", 2, 4);

    assert_eq!(diagnostic_position(&diagnostic), (1, 3, 4));
    assert_eq!(lsp_severity(&diagnostic), 1);
    assert_eq!(diagnostic_source(), "musiclang");
}

#[test]
fn finds_function_definition() {
    let source = "fn motif {\n  note C4, 1/4\n}\nscore demo {\n  call motif\n}";

    assert_eq!(find_definition(source, "motif"), Some((0, 3)));
}

#[test]
fn finds_variable_definition() {
    let source = "score demo {\n  voice lead {\n    let d = duration 1/4\n    note C4, d\n  }\n}";

    assert_eq!(find_definition(source, "d"), Some((2, 8)));
}

#[test]
fn finds_style_definition() {
    let source = "style Chamber {\n  scale: C D E\n}\nscore demo style Chamber {\n}";

    assert_eq!(find_definition(source, "Chamber"), Some((0, 6)));
}

#[test]
fn lines_follow_str_lines() {
    for source in ["", "a", "a\n", "a\r\nb", "a\n\n", "\n", "a\n\nb"] {
        let expected: Vec<String> = source.lines().map(|line| line.to_string()).collect();
        assert_eq!(lines(source), expected, "{source:?}");
    }
}

#[test]
fn word_at_end_of_line_and_past_it() {
    let source = "note C#4";

    assert_eq!(word_at(source, 0, 8).as_deref(), Some("C#4"));
    assert_eq!(word_at(source, 0, 80).as_deref(), Some("C#4"));
    assert_eq!(word_at(source, 0, 4), None.or(Some("note".to_string())));
    assert_eq!(word_at(source, 3, 0), None);
}

#[test]
fn definition_offset_counts_bytes() {
    let source = "// π\nlet πx = 1\nfn motif {\n}";

    assert_eq!(find_definition(source, "motif"), Some((2, 3)));
    assert_eq!(find_definition(source, "missing"), None);
}

#[test]
fn built_in_styles_are_the_named_styles() {
    for name in ["Classical", "Modal", "Jazz", "Minimalist"] {
        let style = StyleContext::built_in(name).unwrap();
        assert_eq!(style.name, name);
        assert_eq!(style, StyleContext::named(name));
    }
    assert!(StyleContext::built_in("Baroque").is_none());
    assert!(StyleContext::built_in("Core").is_none());
}
