use musiclang::diagnostic::{Diagnostic, SourceId, SourceMap, Span};

#[test]
fn diagnostic_diagnostic_error_keeps_legacy_location_and_span() {
    let diagnostic = Diagnostic::error("ML_TEST", "message", 3, 5);

    assert_eq!(diagnostic.line, 3);
    assert_eq!(diagnostic.column, 5);
    assert_eq!(diagnostic.span, Some(Span::point(3, 5)));
}

#[test]
fn source_map_registers_files_and_resolves_spans() {
    let mut sources = SourceMap::new();
    let id = sources.add("demo.music", "score demo {\n  note C4, 1/4\n}");
    let start = sources.get(id).unwrap().text.find("note").unwrap();
    let span = sources.span(id, start, start + "note".len()).unwrap();

    assert_eq!(sources.len(), 1);
    assert_eq!(sources.get(id).unwrap().name, "demo.music");
    assert_eq!(span.source_id, id);
    assert_eq!(span.line, 2);
    assert_eq!(span.column, 3);
    assert_eq!(span.start, start);
    assert_eq!(span.end, start + 4);
}

#[test]
fn source_map_columns_use_utf8_byte_offsets() {
    let mut sources = SourceMap::new();
    let id = sources.add("utf8.music", "π\nnote C4");
    let start = "π\n".len();
    let span = sources.span(id, start, start + 4).unwrap();

    assert_eq!(span.line, 2);
    assert_eq!(span.column, 1);
    assert_eq!(sources.get(SourceId(99)), None);
    assert_eq!(sources.span(SourceId(99), 0, 1), None);
}

#[test]
fn source_map_span_is_the_files_span_and_unknown_ids_give_none() {
    let mut sources = SourceMap::new();
    let id = sources.add("demo.music", "score demo {\n  note C4, 1/4\n}");

    assert_eq!(
        sources.span(id, 15, 19),
        Some(Span { source_id: id, start: 15, end: 19, line: 2, column: 3 })
    );
    assert_eq!(sources.span(SourceId(99), 0, 1), None);
    assert!(sources.get(SourceId(99)).is_none());
}
