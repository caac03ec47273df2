use musiclang::cli::{
    default_output, export_format, format_diagnostics, json_escape, json_option, json_span,
    new_manifest_text, override_trace_line, parse_manifest, repl_command, trim_quotes,
    with_style_line, ExportFormat, ProjectManifest, ReplCommand,
};
use musiclang::diagnostic::{Diagnostic, Span};
use musiclang::ir::OverrideTrace;

#[test]
fn manifest_defaults_and_overrides() {
    let manifest = parse_manifest("name = \"demo\"\noutput = \"build/demo.mid\"\n# comment\n");

    assert_eq!(manifest.name, "demo");
    assert_eq!(manifest.source, "src/main.music");
    assert_eq!(manifest.output, "build/demo.mid");
    assert_eq!(manifest.format, "midi");
    assert_eq!(parse_manifest(""), ProjectManifest::default());
}

#[test]
fn manifest_of_a_new_project_reads_back() {
    let manifest = parse_manifest(&new_manifest_text("tune"));

    assert_eq!(manifest.name, "tune");
    assert_eq!(manifest.output, "build/tune.mid");
}

#[test]
fn quotes_are_trimmed_from_both_ends() {
    assert_eq!(trim_quotes("\"\"x\"y\""), "x\"y");
    assert_eq!(trim_quotes("\"\""), "");
}

#[test]
fn json_text_is_escaped() {
    assert_eq!(json_escape("a\"b\\c\nd"), "a\\\"b\\\\c\\nd");
    assert_eq!(json_option(None), "null");
    assert_eq!(json_option(Some("x\"")), "\"x\\\"\"");
    assert_eq!(json_span(None), "null");
    assert_eq!(
        json_span(Some(Span::point(2, 3))),
        "{\"source_id\":0,\"start\":0,\"end\":0,\"line\":2,\"column\":3}"
    );
}

#[test]
fn diagnostics_are_joined_by_newlines() {
    let diagnostics = vec![
        Diagnostic::error("ML_A", "first", 1, 1),
        Diagnostic::warning("ML_B", "second", 2, 3),
    ];

    assert_eq!(
        format_diagnostics(&diagnostics),
        "error[ML_A]: first\n  at 1:1\n\nwarning[ML_B]: second\n  at 2:3\n"
    );
}

#[test]
fn override_traces_name_their_reason() {
    let trace = OverrideTrace {
        rule: "scale".to_string(),
        reason: None,
        line: 4,
        column: 5,
    };

    assert_eq!(override_trace_line(&trace), "  scale at 4:5 (no reason provided)");
}

#[test]
fn export_formats_and_default_outputs() {
    assert_eq!(export_format("mid"), Some(ExportFormat::Midi));
    assert_eq!(export_format("xml"), Some(ExportFormat::MusicXml));
    assert_eq!(export_format("audio"), Some(ExportFormat::Wav));
    assert_eq!(export_format("ogg"), None);
    assert_eq!(default_output(ExportFormat::MusicXml), "output.musicxml");
}

#[test]
fn repl_commands_are_recognised() {
    assert_eq!(repl_command(":help\n"), ReplCommand::Help);
    assert_eq!(repl_command("  :quit "), ReplCommand::Quit);
    assert_eq!(repl_command(":load a.music\n"), ReplCommand::Load("a.music".to_string()));
    assert_eq!(repl_command(":style Jazz"), ReplCommand::Style("Jazz".to_string()));
    assert_eq!(repl_command(":export out.mid"), ReplCommand::Export("out.mid".to_string()));
    assert_eq!(repl_command(":what"), ReplCommand::Unknown(":what".to_string()));
    assert_eq!(repl_command("note C4, 1/4\n"), ReplCommand::Source);
    assert_eq!(with_style_line("Jazz", "score x {}\n"), "style Jazz\nscore x {}\n");
}

#[test]
fn manifest_ignores_inline_comments() {
    let m = parse_manifest("name = \"demo\" # project name\nformat = \"musicxml\"\n");

    assert_eq!(m.name, "demo");
    assert_eq!(m.format, "musicxml");
    assert_eq!(m.source, "src/main.music");
    assert_eq!(m.output, "build/main.mid");
    let quoted = parse_manifest("name = \"a#b\"\n");
    assert_eq!(quoted.name, "a#b");
}
