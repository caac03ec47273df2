use musiclang::ast::{ScoreMeta, Stmt};
use musiclang::lexer::tokenize_source;
use musiclang::parser::{expr_to_source, parse_source};
use musiclang::token::TokenKind;

#[test]
fn tokenizes_pitch_arithmetic() {
    let tokens = tokenize_source("note C4 + M3, 1/4").unwrap();

    assert!(tokens.iter().any(|token| token.kind() == TokenKind::Plus));
    assert!(tokens.iter().any(|token| token.kind() == TokenKind::Interval));
}

#[test]
fn token_spans_cover_source_offsets() {
    let tokens = tokenize_source("note C4 + M3, 1/4").unwrap();

    assert_eq!(tokens[0].text(), "note");
    assert_eq!(tokens[0].span().start, 0);
    assert_eq!(tokens[0].span().end, 4);
    assert_eq!(tokens[1].text(), "C4");
    assert_eq!(tokens[1].span().start, 5);
    assert_eq!(tokens[1].span().end, 7);
}

#[test]
fn token_spans_use_utf8_byte_offsets() {
    let tokens = tokenize_source("// π\nnote C4, 1/4").unwrap();

    assert_eq!(tokens[0].text(), "note");
    assert_eq!(tokens[0].span().line, 2);
    assert_eq!(tokens[0].span().column, 1);
    assert_eq!(tokens[0].span().start, "// π\n".len());
    assert_eq!(tokens[0].span().end, "// π\nnote".len());
}

#[test]
fn parses_minimal_score() {
    let source = r#"
score demo {
  voice lead {
note C4, 1/4
chord [C4, E4, G4], 1/2
  }
}
"#;
    let program = parse_source(source).unwrap();

    assert_eq!(program.score.name, "demo");
    assert_eq!(program.score.statements.len(), 1);
    let Stmt::Voice(voice) = &program.score.statements[0] else {
        panic!("expected voice");
    };
    let Stmt::Note(note) = &voice.statements[0] else {
        panic!("expected note");
    };
    let expected_start = source.find("C4").unwrap();
    assert_eq!(note.pitch_expr.span.start, expected_start);
    assert_eq!(note.pitch_expr.span.end, expected_start + "C4".len());
}

#[test]
fn parses_named_chord_quality() {
    let program = parse_source(
        r#"
score demo {
  voice lead {
chord D3 minor7, 1/2
  }
}
"#,
    )
    .unwrap();
    let Stmt::Voice(voice) = &program.score.statements[0] else {
        panic!("expected voice");
    };
    let Stmt::Chord(chord) = &voice.statements[0] else {
        panic!("expected chord");
    };

    assert_eq!(
        chord.root_expr.as_ref().map(expr_to_source).as_deref(),
        Some("D3")
    );
    assert_eq!(chord.quality.as_deref(), Some("minor7"));
    assert!(chord.pitch_exprs.is_empty());
}

#[test]
fn parses_pedal_statement() {
    let program = parse_source(
        r#"
score demo {
  voice bass {
pedal C3, 4, 1/4
  }
}
"#,
    )
    .unwrap();
    let Stmt::Voice(voice) = &program.score.statements[0] else {
        panic!("expected voice");
    };
    let Stmt::Pedal(pedal) = &voice.statements[0] else {
        panic!("expected pedal");
    };

    assert_eq!(pedal.pitch, "C3");
    assert_eq!(pedal.count, 4);
    assert_eq!(pedal.duration, "1/4");
}

#[test]
fn parses_rest_statement() {
    let program = parse_source(
        r#"
score demo {
  voice lead {
rest 1/4
note C4, 1/4
  }
}
"#,
    )
    .unwrap();
    let Stmt::Voice(voice) = &program.score.statements[0] else {
        panic!("expected voice");
    };
    let Stmt::Rest(rest) = &voice.statements[0] else {
        panic!("expected rest");
    };

    assert_eq!(rest.duration, "1/4");
}

#[test]
fn parses_scale_degree_statement() {
    let program = parse_source(
        r#"
score demo {
  key C major
  voice lead {
degree b3 4, 1/8
  }
}
"#,
    )
    .unwrap();
    let Stmt::Voice(voice) = &program.score.statements[0] else {
        panic!("expected voice");
    };
    let Stmt::Degree(degree) = &voice.statements[0] else {
        panic!("expected degree");
    };

    assert_eq!(degree.degree, "b3");
    assert_eq!(degree.octave, 4);
    assert_eq!(degree.duration, "1/8");
}

#[test]
fn parses_ostinato_statement() {
    let program = parse_source(
        r#"
score demo {
  voice bass {
ostinato 3 {
  note C3, 1/8
  note G3, 1/8
}
  }
}
"#,
    )
    .unwrap();
    let Stmt::Voice(voice) = &program.score.statements[0] else {
        panic!("expected voice");
    };
    let Stmt::Ostinato(ostinato) = &voice.statements[0] else {
        panic!("expected ostinato");
    };

    assert_eq!(ostinato.count, 3);
    assert_eq!(ostinato.statements.len(), 2);
    assert!(matches!(ostinato.statements[0], Stmt::Note(_)));
}

#[test]
fn parses_transpose_statement() {
    let program = parse_source(
        r#"
score demo {
  voice lead {
transpose M2 {
  note C4, 1/8
  chord [E4, G4], 1/8
}
  }
}
"#,
    )
    .unwrap();
    let Stmt::Voice(voice) = &program.score.statements[0] else {
        panic!("expected voice");
    };
    let Stmt::Transpose(transpose) = &voice.statements[0] else {
        panic!("expected transpose");
    };

    assert_eq!(transpose.interval, "M2");
    assert_eq!(transpose.statements.len(), 2);
}

#[test]
fn parses_sequence_statement() {
    let program = parse_source(
        r#"
score demo {
  voice lead {
sequence 3 by M2 {
  note C4, 1/8
}
  }
}
"#,
    )
    .unwrap();
    let Stmt::Voice(voice) = &program.score.statements[0] else {
        panic!("expected voice");
    };
    let Stmt::Sequence(sequence) = &voice.statements[0] else {
        panic!("expected sequence");
    };

    assert_eq!(sequence.count, 3);
    assert_eq!(sequence.interval, "M2");
    assert_eq!(sequence.statements.len(), 1);
}

#[test]
fn parses_roman_numeral_chord() {
    let program = parse_source(
        r#"
score demo {
  key C major
  voice lead {
roman V65/V, 1/2
  }
}
"#,
    )
    .unwrap();
    let Stmt::Voice(voice) = &program.score.statements[0] else {
        panic!("expected voice");
    };
    let Stmt::Roman(roman) = &voice.statements[0] else {
        panic!("expected roman numeral chord");
    };

    assert_eq!(roman.symbol, "V65/V");
    assert_eq!(roman.duration, "1/2");
}

#[test]
fn parses_harmonic_progression() {
    let program = parse_source(
        r#"
score demo {
  key C major
  voice lead {
progression I vi ii V7 I, 1/4
  }
}
"#,
    )
    .unwrap();
    let Stmt::Voice(voice) = &program.score.statements[0] else {
        panic!("expected voice");
    };
    let Stmt::Progression(progression) = &voice.statements[0] else {
        panic!("expected harmonic progression");
    };

    assert_eq!(progression.symbols, ["I", "vi", "ii", "V7", "I"]);
    assert_eq!(progression.duration, "1/4");
}

#[test]
fn parses_cadence_statement() {
    let program = parse_source(
        r#"
score demo {
  key C major
  voice lead {
cadence authentic, 1/2
  }
}
"#,
    )
    .unwrap();
    let Stmt::Voice(voice) = &program.score.statements[0] else {
        panic!("expected voice");
    };
    let Stmt::Cadence(cadence) = &voice.statements[0] else {
        panic!("expected cadence");
    };

    assert_eq!(cadence.kind, "authentic");
    assert_eq!(cadence.duration, "1/2");
}

#[test]
fn parses_modulation_statement() {
    let program = parse_source(
        r#"
score demo {
  key C major
  voice lead {
modulate G major
roman I, 1/4
  }
}
"#,
    )
    .unwrap();
    let Stmt::Voice(voice) = &program.score.statements[0] else {
        panic!("expected voice");
    };
    let Stmt::Modulate(modulate) = &voice.statements[0] else {
        panic!("expected modulation");
    };

    assert_eq!(modulate.tonic, "G");
    assert_eq!(modulate.mode, "major");
}

#[test]
fn parses_score_title_and_composer_metadata() {
    let program = parse_source(
        r#"
score demo {
  title "String Quartet"
  composer "Ada Lovelace"
  voice lead {
note C4, 1/4
  }
}
"#,
    )
    .unwrap();

    assert!(matches!(
        &program.score.metadata[0],
        ScoreMeta::Title(value) if value.value == "String Quartet"
    ));
    assert!(matches!(
        &program.score.metadata[1],
        ScoreMeta::Composer(value) if value.value == "Ada Lovelace"
    ));
}

#[test]
fn parses_style_and_override() {
    let source = r#"
style Classical
score demo {
  override scale allow reason "color" {
note F#4, 1/4
  }
}
"#;
    let program = parse_source(source).unwrap();

    assert_eq!(program.style.unwrap().name, "Classical");
    assert_eq!(program.score.statements.len(), 1);
}

#[test]
fn parses_multiple_styles_and_score_style_selection() {
    let source = r#"
style Classical
style Sparse {
  scale: C E G
}
score demo style Sparse {
  voice lead {
note E4, 1/4
  }
}
"#;
    let program = parse_source(source).unwrap();

    assert_eq!(program.styles.len(), 2);
    assert_eq!(program.style.unwrap().name, "Classical");
    assert_eq!(program.score.style.as_deref(), Some("Sparse"));
    let entry = &program.styles[1].entries[0];
    let expected_start = source.find("scale").unwrap();
    assert_eq!(entry.line, entry.span.line);
    assert_eq!(entry.column, entry.span.column);
    assert_eq!(entry.span.start, expected_start);
    assert_eq!(entry.span.end, expected_start + "scale".len());
}

#[test]
fn parses_style_inheritance() {
    let source = r#"
style Classical {
  scale: C D E F G A B
}
style Chamber extends Classical {
  tempo_range: 60..120
}
score demo style Chamber {
  voice lead {
note C4, 1/4
  }
}
"#;
    let program = parse_source(source).unwrap();

    assert_eq!(program.styles[1].name, "Chamber");
    assert_eq!(program.styles[1].parent.as_deref(), Some("Classical"));
}

#[test]
fn parses_local_style_scope() {
    let source = r#"
style Classical
style Sparse {
  scale: C E G
}
score demo {
  voice lead {
with style Sparse {
  note E4, 1/4
}
  }
}
"#;
    let program = parse_source(source).unwrap();

    let Stmt::Voice(voice) = &program.score.statements[0] else {
        panic!("expected voice");
    };
    assert!(matches!(voice.statements[0], Stmt::WithStyle(_)));
}

#[test]
fn parses_function_control_flow_and_config_style() {
    let source = r#"
style Custom {
  scale: C D E F G A B
}
fn motif {
  note C4, 1/8
}
score demo {
  voice lead {
let root = C4
for i in 0..2 {
  if i == 1 {
    call motif
  }
}
  }
}
"#;
    let program = parse_source(source).unwrap();

    assert_eq!(program.functions.len(), 1);
    assert_eq!(program.style.unwrap().entries.len(), 1);
}

#[test]
fn parses_dynamic_velocity_and_articulation_statements() {
    let source = r#"
score demo {
  voice lead {
dynamic f
articulation staccato
note C4, 1/4
velocity 32
chord [C4, E4, G4], 1/4
  }
}
"#;
    let program = parse_source(source).unwrap();
    let Stmt::Voice(voice) = &program.score.statements[0] else {
        panic!("expected voice");
    };

    assert!(matches!(voice.statements[0], Stmt::Dynamic(_)));
    assert!(matches!(voice.statements[1], Stmt::Articulation(_)));
    assert!(matches!(voice.statements[3], Stmt::Velocity(_)));
}

#[test]
fn parses_section_statement() {
    let source = r#"
score demo {
  section A {
note C4, 1/4
  }
  section B {
note D4, 1/4
  }
}
"#;
    let program = parse_source(source).unwrap();

    let Stmt::Section(section) = &program.score.statements[0] else {
        panic!("expected section");
    };
    assert_eq!(section.label, "A");
    assert_eq!(section.statements.len(), 1);
}

#[test]
fn parses_non_chord_tone_statement() {
    let source = r#"
score demo {
  voice lead {
non_chord_tone passing_tone {
  note D4, 1/8
}
  }
}
"#;
    let program = parse_source(source).unwrap();
    let Stmt::Voice(voice) = &program.score.statements[0] else {
        panic!("expected voice");
    };
    let Stmt::NonChordTone(non_chord_tone) = &voice.statements[0] else {
        panic!("expected non-chord tone");
    };

    assert_eq!(non_chord_tone.kind, "passing_tone");
    assert_eq!(non_chord_tone.statements.len(), 1);
}

#[test]
fn parses_tuning_system_statement() {
    let source = r#"
score demo {
  voice lead {
tuning_system just_intonation {
  note D4, 1/8
}
  }
}
"#;
    let program = parse_source(source).unwrap();
    let Stmt::Voice(voice) = &program.score.statements[0] else {
        panic!("expected voice");
    };
    let Stmt::TuningSystem(tuning_system) = &voice.statements[0] else {
        panic!("expected tuning system");
    };

    assert_eq!(tuning_system.kind, "just_intonation");
    assert_eq!(tuning_system.statements.len(), 1);
}

#[test]
fn parses_world_tradition_statement() {
    let source = r#"
score demo {
  voice lead {
world_tradition maqam {
  note D4, 1/8
}
  }
}
"#;
    let program = parse_source(source).unwrap();
    let Stmt::Voice(voice) = &program.score.statements[0] else {
        panic!("expected voice");
    };
    let Stmt::WorldTradition(world_tradition) = &voice.statements[0] else {
        panic!("expected world tradition");
    };

    assert_eq!(world_tradition.kind, "maqam");
    assert_eq!(world_tradition.statements.len(), 1);
}

#[test]
fn parses_historical_era_statement() {
    let source = r#"
score demo {
  voice lead {
historical_era baroque {
  note D4, 1/8
}
  }
}
"#;
    let program = parse_source(source).unwrap();
    let Stmt::Voice(voice) = &program.score.statements[0] else {
        panic!("expected voice");
    };
    let Stmt::HistoricalEra(historical_era) = &voice.statements[0] else {
        panic!("expected historical era");
    };

    assert_eq!(historical_era.kind, "baroque");
    assert_eq!(historical_era.statements.len(), 1);
}

#[test]
fn parses_harmonic_function_statement() {
    let source = r#"
score demo {
  voice lead {
harmonic_function tonic {
  note D4, 1/8
}
  }
}
"#;
    let program = parse_source(source).unwrap();
    let Stmt::Voice(voice) = &program.score.statements[0] else {
        panic!("expected voice");
    };
    let Stmt::HarmonicFunction(harmonic_function) = &voice.statements[0] else {
        panic!("expected harmonic function");
    };

    assert_eq!(harmonic_function.kind, "tonic");
    assert_eq!(harmonic_function.statements.len(), 1);
}

#[test]
fn parses_ornament_statement() {
    let source = r#"
score demo {
  voice lead {
ornament trill {
  note D4, 1/8
}
  }
}
"#;
    let program = parse_source(source).unwrap();
    let Stmt::Voice(voice) = &program.score.statements[0] else {
        panic!("expected voice");
    };
    let Stmt::Ornament(ornament) = &voice.statements[0] else {
        panic!("expected ornament");
    };

    assert_eq!(ornament.kind, "trill");
    assert_eq!(ornament.statements.len(), 1);
}

#[test]
fn reports_missing_closing_brace() {
    let diagnostics =
        parse_source("score demo {\n  voice lead {\n    note C4, 1/4\n").unwrap_err();

    assert!(diagnostics
        .iter()
        .any(|diagnostic| diagnostic.code == "ML_PARSE_TOKEN"));
}

#[test]
fn reports_unterminated_string() {
    let diagnostics = parse_source(
        r#"
score demo {
  override scale allow reason "missing close {
note C4, 1/4
  }
}
"#,
    )
    .unwrap_err();

    assert_eq!(diagnostics[0].code, "ML_LEX_STRING");
}

#[test]
fn reports_trailing_input_after_score() {
    let diagnostics = parse_source(
        r#"
score demo {
  voice lead {
note C4, 1/4
  }
}
note D4, 1/4
"#,
    )
    .unwrap_err();

    assert!(diagnostics
        .iter()
        .any(|diagnostic| diagnostic.code == "ML_PARSE_TRAILING_INPUT"));
}

#[test]
fn reports_missing_note_comma() {
    let diagnostics = parse_source(
        r#"
score demo {
  voice lead {
note C4 1/4
  }
}
"#,
    )
    .unwrap_err();

    assert!(diagnostics
        .iter()
        .any(|diagnostic| diagnostic.code == "ML_PARSE_TOKEN"));
}

#[test]
fn parse_token_diagnostics_include_token_span() {
    let source = r#"
score demo {
  voice lead {
chord C4, 1/4
  }
}
"#;
    let diagnostics = parse_source(source).unwrap_err();
    let diagnostic = diagnostics
        .iter()
        .find(|diagnostic| diagnostic.code == "ML_PARSE_CHORD")
        .unwrap();
    let span = diagnostic.span.unwrap();
    let expected_start = source.find("C4").unwrap();

    assert_eq!(span.start, expected_start);
    assert_eq!(span.end, expected_start + "C4".len());
    assert_eq!(diagnostic.line, span.line);
    assert_eq!(diagnostic.column, span.column);
}

#[test]
fn lex_diagnostics_include_token_span() {
    let diagnostics = parse_source("score demo { @ }").unwrap_err();
    let diagnostic = diagnostics
        .iter()
        .find(|diagnostic| diagnostic.code == "ML_LEX_TOKEN")
        .unwrap();
    let span = diagnostic.span.unwrap();

    assert_eq!(span.start, 13);
    assert_eq!(span.end, 14);
}

#[test]
fn reports_unclosed_chord_literal() {
    let diagnostics = parse_source(
        r#"
score demo {
  voice lead {
chord [C4, E4, G4, 1/4
  }
}
"#,
    )
    .unwrap_err();

    assert!(diagnostics
        .iter()
        .any(|diagnostic| diagnostic.code == "ML_PARSE_TOKEN"));
}

#[test]
fn meter_out_of_range_is_reported_at_its_token() {
    let source = "score demo {\n  meter 300/4\n}\n";
    let diagnostics = parse_source(source).unwrap_err();
    let start = source.find("300/4").unwrap();

    assert_eq!(diagnostics[0].code, "ML_PARSE_METER");
    let span = diagnostics[0].span.unwrap();
    assert_eq!(span.start, start);
    assert_eq!(diagnostics[0].line, 2);
    assert_eq!(diagnostics[0].column, 9);
}

#[test]
fn parse_errors_are_located() {
    for source in [
        "score demo {\n  voice lead {\n    note C4, 1/4\n",
        "score demo { @ }",
        "score demo {\n}\nnote D4, 1/4\n",
        "voice lead {\n}\n",
    ] {
        let diagnostics = parse_source(source).unwrap_err();
        assert!(!diagnostics.is_empty());
        for diagnostic in &diagnostics {
            let span = diagnostic.span.unwrap();
            assert_eq!(diagnostic.line, span.line);
            assert_eq!(diagnostic.column, span.column);
            assert!(diagnostic.code.starts_with("ML_PARSE_") || diagnostic.code.starts_with("ML_LEX_"));
        }
    }
}

#[test]
fn stray_character_is_reported_with_its_span() {
    let diagnostics = parse_source("score demo { @ }").unwrap_err();
    let lex = diagnostics
        .iter()
        .find(|diagnostic| diagnostic.code == "ML_LEX_TOKEN")
        .unwrap();
    let span = lex.span.unwrap();

    assert_eq!((span.start, span.end), (13, 14));
}

#[test]
fn equals_equals_is_one_token_and_reads_as_equality() {
    let tokens = tokenize_source("i == 1").unwrap();
    let kinds: Vec<TokenKind> = tokens.iter().map(|t| t.kind()).collect();
    assert_eq!(kinds, vec![TokenKind::Ident, TokenKind::EqEq, TokenKind::Number, TokenKind::Eof]);
    let single = tokenize_source("x = 1").unwrap();
    assert_eq!(single[1].kind(), TokenKind::Eq);
}
