use vstd::prelude::*;

use crate::ast::{
    ArticulationStmt, BinaryOp, CadenceStmt, CallStmt, ChordStmt, DegreeStmt, DynamicStmt, Expr,
    ExprKind, ForStmt, FunctionDecl, HarmonicFunctionStmt, HistoricalEraStmt, IfStmt, KeyDecl,
    LetStmt, MeterDecl, ModulateStmt, NonChordToneStmt, NoteStmt, OrnamentStmt, OstinatoStmt,
    OverrideStmt, PedalStmt, ProgressionStmt, Program, RestStmt, RomanStmt, ScoreDecl, ScoreMeta,
    SectionStmt, SequenceStmt, Stmt, StyleDecl, StyleEntry, TempoDecl, TextMetaDecl,
    TransposeStmt, TuningSystemStmt, VelocityStmt, VoiceDecl, WithStyleStmt, WorldTraditionStmt,
};
use crate::diagnostic::{Diagnostic, Severity, SourceId, Span};
use crate::lexer::{covers, lex_diagnostic, lexeme, tokenize_source};
use crate::text::{append, concat3, i64_text, owned, parse_i32, parse_u8, split_once, str_eq, text_is};
use crate::token::{Token, TokenKind};

verus! {

/// The codes of parser diagnostics.
pub open spec fn parse_code(c: Seq<char>) -> bool {
    ||| c == "ML_PARSE_TOKEN"@
    ||| c == "ML_PARSE_TRAILING_INPUT"@
    ||| c == "ML_PARSE_STYLE_ENTRY"@
    ||| c == "ML_PARSE_STMT"@
    ||| c == "ML_PARSE_EXPR"@
    ||| c == "ML_PARSE_CHORD"@
    ||| c == "ML_PARSE_NAME"@
    ||| c == "ML_PARSE_PROGRESSION"@
    ||| c == "ML_PARSE_DEGREE"@
    ||| c == "ML_PARSE_NUMBER"@
    ||| c == "ML_PARSE_DURATION"@
    ||| c == "ML_PARSE_STRING"@
    ||| c == "ML_PARSE_KEYWORD"@
    ||| c == "ML_PARSE_METER"@
}

/// A parser diagnostic: an error whose code is one of the parser's codes.
pub open spec fn parse_diagnostic(d: Diagnostic) -> bool {
    d.severity == Severity::Error && parse_code(d.code@) && crate::diagnostic::located(d)
}

/// A token kind that names something: an identifier (the source lexer reads keywords as
/// identifiers).
pub open spec fn ident_like(k: TokenKind) -> bool {
    k == TokenKind::Ident
}

/// A token kind that can stand for a name.
pub open spec fn name_kind(k: TokenKind) -> bool {
    ident_like(k) || k == TokenKind::Pitch || k == TokenKind::Interval
}

fn is_ident_like(k: TokenKind) -> (r: bool)
    ensures
        r == ident_like(k),
{
    k == TokenKind::Ident
}

fn is_name_kind(k: TokenKind) -> (r: bool)
    ensures
        r == name_kind(k),
{
    is_ident_like(k) || k == TokenKind::Pitch || k == TokenKind::Interval
}

/// Tokens that a parser can walk: the last one, and only it, is `Eof`.
pub open spec fn parsable(tokens: Seq<Token>) -> bool {
    &&& tokens.len() >= 1
    &&& tokens.last().kind_spec() == TokenKind::Eof
    &&& forall|i: int| 0 <= i < tokens.len() - 1 ==> (#[trigger] tokens[i]).kind_spec() != TokenKind::Eof
}

struct Parser {
    tokens: Vec<Token>,
    index: usize,
    diagnostics: Vec<Diagnostic>,
}

impl Parser {
    closed spec fn wf(self) -> bool {
        &&& parsable(self.tokens@)
        &&& self.index < self.tokens@.len()
        &&& forall|i: int|
            0 <= i < self.diagnostics@.len() ==> parse_diagnostic(#[trigger] self.diagnostics@[i])
    }

    /// The parser moved forward over the same tokens and stayed well formed.
    closed spec fn moved(self, next: Parser) -> bool {
        &&& next.wf()
        &&& next.tokens@ == self.tokens@
        &&& next.index >= self.index
    }

    closed spec fn remaining(self) -> nat {
        (self.tokens@.len() - self.index) as nat
    }

    closed spec fn current(self) -> Token {
        self.tokens@[self.index as int]
    }

    /// The token `k` places after the current one.
    closed spec fn ahead(self, k: int) -> Token {
        self.tokens@[self.index + k]
    }

    closed spec fn at_ident(self, text: Seq<char>) -> bool {
        ident_like(self.current().kind_spec()) && self.current().text_spec() == text
    }

    fn new(tokens: Vec<Token>) -> (r: Parser)
        requires
            parsable(tokens@),
        ensures
            r.wf(),
            r.tokens@ == tokens@,
            r.index == 0,
            r.diagnostics@.len() == 0,
    {
        Parser { tokens, index: 0, diagnostics: Vec::new() }
    }

    fn peek(&self) -> (r: &Token)
        requires
            self.wf(),
        ensures
            *r == self.current(),
    {
        &self.tokens[self.index]
    }

    fn check(&self, kind: TokenKind) -> (r: bool)
        requires
            self.wf(),
        ensures
            r == (self.current().kind_spec() == kind),
    {
        self.tokens[self.index].kind() == kind
    }

    fn check_ident(&self, text: &str) -> (r: bool)
        requires
            self.wf(),
        ensures
            r == self.at_ident(text@),
    {
        let t = &self.tokens[self.index];
        is_ident_like(t.kind()) && crate::text::str_eq(t.text(), text)
    }

    /// Moves past the current token unless it is the final `Eof`; gives a copy of it.
    fn advance(&mut self) -> (r: Token)
        requires
            old(self).wf(),
        ensures
            old(self).moved(*final(self)),
            r == old(self).current(),
            final(self).diagnostics == old(self).diagnostics,
            old(self).current().kind_spec() != TokenKind::Eof ==> final(self).index == old(
                self,
            ).index + 1,
    {
        let t = self.tokens[self.index].duplicate();
        let n = self.tokens.len();
        if self.index + 1 < n {
            self.index = self.index + 1;
        }
        t
    }

    fn push_token_diagnostic(&mut self, code: &str, message: &str, token: &Token)
        requires
            old(self).wf(),
            parse_code(code@),
        ensures
            old(self).moved(*final(self)),
            final(self).index == old(self).index,
            final(self).diagnostics@.len() == old(self).diagnostics@.len() + 1,
    {
        let span = token.span();
        let d = Diagnostic::error(code, message, span.line, span.column).with_span(span);
        self.diagnostics.push(d);
    }

    fn expect_ident_text(&mut self, text: &str) -> (r: Option<Token>)
        requires
            old(self).wf(),
        ensures
            old(self).moved(*final(self)),
            r is Some <==> old(self).at_ident(text@),
            r is Some ==> final(self).index == old(self).index + 1,
            r matches Some(t) ==> t == old(self).current(),
            r is None ==> final(self).index == old(self).index,
            r is None ==> final(self).diagnostics@.len() == old(self).diagnostics@.len() + 1,
            r is Some ==> final(self).diagnostics == old(self).diagnostics,
    {
        let token = self.peek().duplicate();
        if is_ident_like(token.kind()) && crate::text::str_eq(token.text(), text) {
            assert(token.kind_spec() != TokenKind::Eof);
            self.advance();
            Some(token)
        } else {
            let message = concat3("expected `", text, "`");
            self.push_token_diagnostic("ML_PARSE_KEYWORD", message.as_str(), &token);
            None
        }
    }

    fn expect(&mut self, kind: TokenKind, message: &str) -> (r: Option<Token>)
        requires
            old(self).wf(),
        ensures
            old(self).moved(*final(self)),
            r is Some <==> old(self).current().kind_spec() == kind,
            r is Some && kind != TokenKind::Eof ==> final(self).index == old(self).index + 1,
            r is None ==> final(self).index == old(self).index,
    {
        let token = self.peek().duplicate();
        if token.kind() == kind {
            self.advance();
            Some(token)
        } else {
            self.push_token_diagnostic("ML_PARSE_TOKEN", message, &token);
            None
        }
    }

    fn consume(&mut self, kind: TokenKind) -> (r: Option<Token>)
        requires
            old(self).wf(),
        ensures
            old(self).moved(*final(self)),
            r is Some <==> old(self).current().kind_spec() == kind,
            r is Some && kind != TokenKind::Eof ==> final(self).index == old(self).index + 1,
            r is None ==> *final(self) == *old(self),
    {
        if self.check(kind) {
            Some(self.advance())
        } else {
            None
        }
    }

    fn expect_name_token(&mut self) -> (r: Option<Token>)
        requires
            old(self).wf(),
        ensures
            old(self).moved(*final(self)),
            r is Some <==> name_kind(old(self).current().kind_spec()),
            r is Some ==> final(self).index == old(self).index + 1,
            r matches Some(t) ==> t == old(self).current(),
            r is None ==> final(self).index == old(self).index,
    {
        let token = self.peek().duplicate();
        if is_name_kind(token.kind()) {
            self.advance();
            Some(token)
        } else {
            self.push_token_diagnostic("ML_PARSE_NAME", "expected name", &token);
            None
        }
    }

    fn expect_name(&mut self) -> (r: Option<String>)
        requires
            old(self).wf(),
        ensures
            old(self).moved(*final(self)),
            r is Some <==> name_kind(old(self).current().kind_spec()),
            r is Some ==> final(self).index == old(self).index + 1,
            r matches Some(t) ==> t@ == old(self).current().text_spec(),
    {
        match self.expect_name_token() {
            Some(t) => Some(owned(t.text())),
            None => None,
        }
    }

    fn expect_scale_degree(&mut self) -> (r: Option<String>)
        requires
            old(self).wf(),
        ensures
            old(self).moved(*final(self)),
            r is Some ==> final(self).index == old(self).index + 1,
            r matches Some(t) ==> t@ == old(self).current().text_spec(),
            r is Some <==> (name_kind(old(self).current().kind_spec()) || old(self).current().kind_spec()
                == TokenKind::Number),
            r is None ==> final(self).index == old(self).index && final(self).diagnostics@.len()
                == old(self).diagnostics@.len() + 1,
    {
        let token = self.peek().duplicate();
        let k = token.kind();
        if is_ident_like(k) || k == TokenKind::Pitch || k == TokenKind::Interval || k
            == TokenKind::Number {
            self.advance();
            Some(owned(token.text()))
        } else {
            self.push_token_diagnostic("ML_PARSE_DEGREE", "expected scale degree", &token);
            None
        }
    }

    fn expect_number(&mut self) -> (r: Option<i32>)
        requires
            old(self).wf(),
        ensures
            old(self).moved(*final(self)),
            r is Some ==> final(self).index == old(self).index + 1,
            old(self).current().kind_spec() == TokenKind::Number ==> final(self).index == old(self).index
                + 1 && match r {
                Some(v) => crate::text::parse_int_spec(
                    old(self).current().text_spec(),
                    true,
                    i32::MIN as int,
                    i32::MAX as int,
                ) == Some(v as int),
                None => crate::text::parse_int_spec(
                    old(self).current().text_spec(),
                    true,
                    i32::MIN as int,
                    i32::MAX as int,
                ) is None,
            },
            old(self).current().kind_spec() != TokenKind::Number ==> r is None && final(self).index
                == old(self).index && final(self).diagnostics@.len() == old(self).diagnostics@.len() + 1,
    {
        let token = self.peek().duplicate();
        if token.kind() == TokenKind::Number {
            self.advance();
            parse_i32(token.text())
        } else {
            self.push_token_diagnostic("ML_PARSE_NUMBER", "expected number", &token);
            None
        }
    }

    fn expect_duration_literal(&mut self) -> (r: Option<String>)
        requires
            old(self).wf(),
        ensures
            old(self).moved(*final(self)),
            r is Some ==> final(self).index == old(self).index + 1,
            r is Some <==> old(self).current().kind_spec() == TokenKind::Duration,
            r matches Some(t) ==> t@ == old(self).current().text_spec(),
            r is Some ==> final(self).diagnostics == old(self).diagnostics,
            r is None ==> final(self).index == old(self).index && final(self).diagnostics@.len()
                == old(self).diagnostics@.len() + 1,
    {
        let token = self.peek().duplicate();
        if token.kind() == TokenKind::Duration {
            self.advance();
            Some(owned(token.text()))
        } else {
            self.push_token_diagnostic(
                "ML_PARSE_DURATION",
                "expected duration literal",
                &token,
            );
            None
        }
    }

    fn expect_string(&mut self) -> (r: Option<String>)
        requires
            old(self).wf(),
        ensures
            old(self).moved(*final(self)),
            r is Some ==> final(self).index == old(self).index + 1,
            r matches Some(t) ==> t@ == old(self).current().text_spec(),
            r is Some <==> old(self).current().kind_spec() == TokenKind::String,
            r is None ==> final(self).index == old(self).index && final(self).diagnostics@.len()
                == old(self).diagnostics@.len() + 1,
    {
        let token = self.peek().duplicate();
        if token.kind() == TokenKind::String {
            self.advance();
            Some(owned(token.text()))
        } else {
            self.push_token_diagnostic("ML_PARSE_STRING", "expected string", &token);
            None
        }
    }

    fn current_starts_statement(&self) -> (r: bool)
        requires
            self.wf(),
        ensures
            r == statement_word_spec(self.current().text_spec()),
    {
        let t = self.peek().text();
        statement_word(t)
    }

    fn current_starts_style_entry(&self) -> (r: bool)
        requires
            self.wf(),
        ensures
            r ==> ident_like(self.current().kind_spec()),
            r == (ident_like(self.current().kind_spec()) && self.index + 1 < self.tokens@.len()
                && self.tokens@[self.index + 1].kind_spec() == TokenKind::Colon),
    {
        let n = self.tokens.len();
        is_ident_like(self.peek().kind()) && self.index + 1 < n
            && self.tokens[self.index + 1].kind() == TokenKind::Colon
    }

    fn parse_program(self) -> (r: Result<Program, Vec<Diagnostic>>)
        requires
            self.wf(),
        ensures
            r matches Err(ds) ==> forall|i: int|
                0 <= i < ds@.len() ==> parse_diagnostic(#[trigger] ds@[i]),
            r matches Err(ds) ==> ds@.len() > 0,
            r matches Ok(p) ==> (p.style is Some <==> p.styles@.len() > 0),
            r matches Ok(p) ==> exists|k: int|
                0 <= k < self.tokens@.len() - 1 && ident_like(self.tokens@[k].kind_spec())
                    && #[trigger] self.tokens@[k].text_spec() == "score"@ && name_kind(
                    self.tokens@[k + 1].kind_spec(),
                ) && p.score.name@
                    == self.tokens@[k + 1].text_spec() && placed_at(
                    p.score.line,
                    p.score.column,
                    p.score.span,
                    self.tokens@[k],
                ),
            r is Ok ==> self.tokens@.len() >= 2 && self.tokens@[self.tokens@.len() - 2].kind_spec()
                == TokenKind::RBrace,
    {
        let mut p = self;
        let mut styles: Vec<StyleDecl> = Vec::new();
        let mut functions: Vec<FunctionDecl> = Vec::new();
        let mut first_style: Option<StyleDecl> = None;
        while p.check_ident("style") || p.check_ident("fn")
            invariant
                p.wf(),
                p.tokens@ == self.tokens@,
                first_style is Some <==> styles@.len() > 0,
            decreases p.remaining(),
        {
            if p.check_ident("style") {
                match p.parse_style() {
                    Some(style) => {
                        if styles.len() == 0 {
                            first_style = Some(style.clone());
                        }
                        styles.push(style);
                    },
                    None => {},
                }
            } else {
                match p.parse_function() {
                    Some(function) => functions.push(function),
                    None => {},
                }
            }
        }
        let ghost k = p.index as int;
        let ghost before = p;
        let score = p.parse_score();
        if !p.check(TokenKind::Eof) {
            let token = p.peek().duplicate();
            p.push_token_diagnostic(
                "ML_PARSE_TRAILING_INPUT",
                "unexpected input after score",
                &token,
            );
        }
        if p.diagnostics.len() > 0 {
            return Err(p.diagnostics);
        }
        match score {
            Some(score) => {
                proof {
                    assert(p.tokens@ == self.tokens@);
                    assert(self.tokens@[k].text_spec() == "score"@);
                }
                Ok(Program { style: first_style, styles, functions, score })
            },
            None => {
                if p.diagnostics.len() == 0 {
                    let token = p.peek().duplicate();
                    p.push_token_diagnostic("ML_PARSE_TOKEN", "expected score", &token);
                }
                Err(p.diagnostics)
            },
        }
    }

    fn parse_style(&mut self) -> (r: Option<StyleDecl>)
        requires
            old(self).wf(),
            old(self).at_ident("style"@),
        ensures
            old(self).moved(*final(self)),
            final(self).index > old(self).index,
    {
        let start = match self.expect_ident_text("style") {
            Some(t) => t,
            None => return None,
        };
        let name = match self.expect_name() {
            Some(n) => n,
            None => return None,
        };
        let parent = if self.check_ident("extends") {
            self.advance();
            match self.expect_name() {
                Some(n) => Some(n),
                None => return None,
            }
        } else {
            None
        };
        let mut entries: Vec<StyleEntry> = Vec::new();
        let ghost before_block = self.index;
        if self.consume(TokenKind::LBrace).is_some() {
            while !self.check(TokenKind::RBrace) && !self.check(TokenKind::Eof)
                invariant
                    self.wf(),
                    self.tokens@ == old(self).tokens@,
                    self.index > old(self).index,
                decreases self.remaining(),
            {
                let ghost iter_start = self.index;
                let key_token = match self.expect_name_token() {
                    Some(t) => t,
                    None => return None,
                };
                let key = owned(key_token.text());
                match self.expect(TokenKind::Colon, "expected `:` in style entry") {
                    Some(_) => {},
                    None => return None,
                }
                let mut value = String::new();
                let mut count: usize = 0;
                let ghost entry_start = self.index;
                while !self.check(TokenKind::RBrace) && !self.check(TokenKind::Eof)
                    && !self.current_starts_style_entry()
                    invariant
                        self.wf(),
                        self.tokens@ == old(self).tokens@,
                        self.index > old(self).index,
                        self.index >= entry_start,
                    decreases self.remaining(),
                {
                    let t = self.advance();
                    if count > 0 {
                        append(&mut value, " ");
                    }
                    append(&mut value, t.text());
                    if count < usize::MAX {
                        count = count + 1;
                    }
                }
                if count == 0 {
                    let token = self.peek().duplicate();
                    self.push_token_diagnostic(
                        "ML_PARSE_STYLE_ENTRY",
                        "expected style entry value",
                        &token,
                    );
                } else {
                    let span = key_token.span();
                    entries.push(
                        StyleEntry { key, value, line: span.line, column: span.column, span },
                    );
                }
            }
            match self.expect(TokenKind::RBrace, "expected `}` to close style block") {
                Some(_) => {},
                None => return None,
            }
        }
        let span = start.span();
        Some(StyleDecl { name, parent, entries, line: span.line, column: span.column, span })
    }

    fn parse_function(&mut self) -> (r: Option<FunctionDecl>)
        requires
            old(self).wf(),
            old(self).at_ident("fn"@),
        ensures
            old(self).moved(*final(self)),
            final(self).index > old(self).index,
    {
        let start = match self.expect_ident_text("fn") {
            Some(t) => t,
            None => return None,
        };
        let name = match self.expect_name() {
            Some(n) => n,
            None => return None,
        };
        let statements = match self.parse_required_block() {
            Some(s) => s,
            None => return None,
        };
        let span = start.span();
        Some(FunctionDecl { name, statements, line: span.line, column: span.column, span })
    }

    fn parse_score(&mut self) -> (r: Option<ScoreDecl>)
        requires
            old(self).wf(),
        ensures
            old(self).moved(*final(self)),
            !old(self).at_ident("score"@) ==> r is None && final(self).index == old(self).index,
            r matches Some(sc) ==> {
                &&& old(self).at_ident("score"@)
                &&& name_kind(old(self).ahead(1).kind_spec())
                &&& sc.name@ == old(self).ahead(1).text_spec()
                &&& placed_at(sc.line, sc.column, sc.span, old(self).current())
                &&& (if ident_like(old(self).ahead(2).kind_spec()) && old(self).ahead(2).text_spec()
                    == "style"@ {
                    sc.style matches Some(n) && n@ == old(self).ahead(3).text_spec()
                } else {
                    sc.style is None
                })
                &&& final(self).index > old(self).index
                &&& final(self).tokens@[final(self).index - 1].kind_spec() == TokenKind::RBrace
            },
    {
        let start = match self.expect_ident_text("score") {
            Some(t) => t,
            None => return None,
        };
        let name = match self.expect_name() {
            Some(n) => n,
            None => return None,
        };
        let style = if self.check_ident("style") {
            self.advance();
            match self.expect_name() {
                Some(n) => Some(n),
                None => return None,
            }
        } else {
            None
        };
        match self.expect(TokenKind::LBrace, "expected `{` to start score block") {
            Some(_) => {},
            None => return None,
        }
        let mut metadata: Vec<ScoreMeta> = Vec::new();
        let mut statements: Vec<Stmt> = Vec::new();
        while !self.check(TokenKind::RBrace) && !self.check(TokenKind::Eof)
            invariant
                self.wf(),
                self.tokens@ == old(self).tokens@,
                self.index >= old(self).index,
                old(self).at_ident("score"@),
            decreases self.remaining(),
        {
            if self.check_ident("title") {
                match self.parse_text_meta("title") {
                    Some(m) => metadata.push(ScoreMeta::Title(m)),
                    None => return None,
                }
            } else if self.check_ident("composer") {
                match self.parse_text_meta("composer") {
                    Some(m) => metadata.push(ScoreMeta::Composer(m)),
                    None => return None,
                }
            } else if self.check_ident("tempo") {
                match self.parse_tempo() {
                    Some(m) => metadata.push(ScoreMeta::Tempo(m)),
                    None => return None,
                }
            } else if self.check_ident("meter") {
                match self.parse_meter() {
                    Some(m) => metadata.push(ScoreMeta::Meter(m)),
                    None => return None,
                }
            } else if self.check_ident("key") {
                match self.parse_key() {
                    Some(m) => metadata.push(ScoreMeta::Key(m)),
                    None => return None,
                }
            } else {
                match self.parse_stmt() {
                    Some(stmt) => statements.push(stmt),
                    None => {
                        self.advance();
                    },
                }
            }
        }
        match self.expect(TokenKind::RBrace, "expected `}` to close score block") {
            Some(_) => {},
            None => return None,
        }
        assert(self.tokens@[self.index - 1].kind_spec() == TokenKind::RBrace);
        let span = start.span();
        Some(
            ScoreDecl {
                name,
                style,
                metadata,
                statements,
                line: span.line,
                column: span.column,
                span,
            },
        )
    }

    fn parse_required_block(&mut self) -> (r: Option<Vec<Stmt>>)
        requires
            old(self).wf(),
        ensures
            old(self).moved(*final(self)),
            r is Some ==> final(self).index > old(self).index,
            old(self).current().kind_spec() != TokenKind::LBrace ==> r is None && final(self).index
                == old(self).index,
            r is Some ==> old(self).current().kind_spec() == TokenKind::LBrace && final(self).tokens@[final(self).index - 1].kind_spec()
                == TokenKind::RBrace,
            r is None && old(self).current().kind_spec() == TokenKind::LBrace ==> final(self).current().kind_spec()
                == TokenKind::Eof,
        decreases old(self).remaining(), 2nat,
    {
        match self.expect(TokenKind::LBrace, "expected `{` to start block") {
            Some(_) => {},
            None => return None,
        }
        let mut statements: Vec<Stmt> = Vec::new();
        while !self.check(TokenKind::RBrace) && !self.check(TokenKind::Eof)
            invariant
                self.wf(),
                self.tokens@ == old(self).tokens@,
                self.index > old(self).index,
            decreases self.remaining(),
        {
            match self.parse_stmt() {
                Some(stmt) => statements.push(stmt),
                None => {
                    self.advance();
                },
            }
        }
        match self.expect(TokenKind::RBrace, "expected `}` to close block") {
            Some(_) => {},
            None => return None,
        }
        Some(statements)
    }

    fn parse_stmt(&mut self) -> (r: Option<Stmt>)
        requires
            old(self).wf(),
        ensures
            old(self).moved(*final(self)),
            r is Some ==> final(self).index > old(self).index,
            r is None ==> final(self).index == old(self).index || old(self).current().kind_spec()
                != TokenKind::Eof,
            !(ident_like(old(self).current().kind_spec()) && stmt_keyword(old(self).current().text_spec()))
                ==> r is None && final(self).index == old(self).index && final(self).diagnostics@.len()
                == old(self).diagnostics@.len() + 1,
            old(self).at_ident("velocity"@) ==> (r is Some <==> old(self).ahead(1).kind_spec()
                == TokenKind::Number && crate::text::parse_int_spec(
                old(self).ahead(1).text_spec(),
                true,
                i32::MIN as int,
                i32::MAX as int,
            ) is Some) && (r matches Some(st) ==> st matches Stmt::Velocity(v) && v.velocity
                == velocity_clamp(
                crate::text::parse_int_spec(
                    old(self).ahead(1).text_spec(),
                    true,
                    i32::MIN as int,
                    i32::MAX as int,
                )->0,
            )),
            old(self).at_ident("note"@) ==> (r matches Some(st) ==> st matches Stmt::Note(n) && note_at(
                old(self).tokens@,
                old(self).index as int,
                final(self).index as int,
                n,
            )) && (r is None ==> forall|end: int, n: NoteStmt|
                !#[trigger] note_at(old(self).tokens@, old(self).index as int, end, n)),
            old(self).at_ident("dynamic"@) ==> (r is Some <==> name_kind(old(self).ahead(1).kind_spec())) && (
            r matches Some(st) ==> st matches Stmt::Dynamic(s) && s.mark@ == old(self).ahead(1).text_spec()
                && placed_at(s.line, s.column, s.span, old(self).current())),
            old(self).at_ident("articulation"@) ==> (r is Some <==> name_kind(old(self).ahead(1).kind_spec())) && (
            r matches Some(st) ==> st matches Stmt::Articulation(s) && s.mark@ == old(self).ahead(1).text_spec()
                && placed_at(s.line, s.column, s.span, old(self).current())),
            old(self).at_ident("call"@) ==> (r is Some <==> name_kind(old(self).ahead(1).kind_spec())) && (
            r matches Some(st) ==> st matches Stmt::Call(s) && s.name@ == old(self).ahead(1).text_spec()
                && placed_at(s.line, s.column, s.span, old(self).current())),
            old(self).at_ident("let"@) ==> (r matches Some(st) ==> st matches Stmt::Let(l) && let_at(
                old(self).tokens@,
                old(self).index as int,
                final(self).index as int,
                l,
            )) && (r is None ==> forall|end: int, l: LetStmt|
                !#[trigger] let_at(old(self).tokens@, old(self).index as int, end, l)),
            old(self).at_ident("chord"@) && old(self).ahead(1).kind_spec() == TokenKind::LBracket ==> (r matches Some(
                st,
            ) ==> st matches Stmt::Chord(c) && chord_list_at(
                old(self).tokens@,
                old(self).index as int,
                final(self).index as int,
                c,
            )),
            old(self).at_ident("section"@) ==> (r matches Some(st) ==> st matches Stmt::Section(x) && section_head(
                old(self).tokens@,
                old(self).index as int,
                x,
            )),
            old(self).at_ident("for"@) ==> (r matches Some(st) ==> st matches Stmt::For(x) && for_head(
                old(self).tokens@,
                old(self).index as int,
                x,
            )),
            old(self).at_ident("if"@) ==> (r matches Some(st) ==> st matches Stmt::If(x) && if_head(
                old(self).tokens@,
                old(self).index as int,
                x,
            )),
            old(self).at_ident("override"@) ==> (r matches Some(st) ==> st matches Stmt::Override(x) && override_head(
                old(self).tokens@,
                old(self).index as int,
                x,
            )),
            old(self).at_ident("with"@) ==> (r matches Some(st) ==> st matches Stmt::WithStyle(x) && with_style_head(
                old(self).tokens@,
                old(self).index as int,
                x,
            )),
            old(self).at_ident("rest"@) ==> (r matches Some(st) ==> st matches Stmt::Rest(rs) && reads_as(
                old(self).tokens@,
                old(self).index + 1,
                final(self).index as int,
                rs.duration_expr,
            )) && (r is None ==> forall|e: Expr|
                !#[trigger] reads_as(old(self).tokens@, old(self).index + 1, final(self).index as int, e)),
        decreases old(self).remaining(), 1nat,
    {
        proof {
            lemma_statement_words_differ();
            lemma_named_statement_words_differ();
        }
        if self.check_ident("voice") {
            return match self.parse_voice() {
                Some(v) => Some(Stmt::Voice(v)),
                None => None,
            };
        }
        if self.check_ident("note") {
            return match self.parse_note() {
                Some(v) => Some(Stmt::Note(v)),
                None => None,
            };
        }
        if self.check_ident("rest") {
            return match self.parse_rest() {
                Some(v) => Some(Stmt::Rest(v)),
                None => None,
            };
        }
        if self.check_ident("degree") {
            return match self.parse_degree() {
                Some(v) => Some(Stmt::Degree(v)),
                None => None,
            };
        }
        if self.check_ident("pedal") {
            return match self.parse_pedal() {
                Some(v) => Some(Stmt::Pedal(v)),
                None => None,
            };
        }
        if self.check_ident("ostinato") {
            return match self.parse_ostinato() {
                Some(v) => Some(Stmt::Ostinato(v)),
                None => None,
            };
        }
        if self.check_ident("sequence") {
            return match self.parse_sequence() {
                Some(v) => Some(Stmt::Sequence(v)),
                None => None,
            };
        }
        if self.check_ident("transpose") {
            return match self.parse_transpose() {
                Some(v) => Some(Stmt::Transpose(v)),
                None => None,
            };
        }
        if self.check_ident("chord") {
            return match self.parse_chord() {
                Some(v) => Some(Stmt::Chord(v)),
                None => None,
            };
        }
        if self.check_ident("roman") {
            return match self.parse_roman() {
                Some(v) => Some(Stmt::Roman(v)),
                None => None,
            };
        }
        if self.check_ident("progression") {
            return match self.parse_progression() {
                Some(v) => Some(Stmt::Progression(v)),
                None => None,
            };
        }
        if self.check_ident("cadence") {
            return match self.parse_cadence() {
                Some(v) => Some(Stmt::Cadence(v)),
                None => None,
            };
        }
        if self.check_ident("modulate") {
            return match self.parse_modulate() {
                Some(v) => Some(Stmt::Modulate(v)),
                None => None,
            };
        }
        if self.check_ident("dynamic") {
            return match self.parse_dynamic() {
                Some(v) => Some(Stmt::Dynamic(v)),
                None => None,
            };
        }
        if self.check_ident("velocity") {
            return match self.parse_velocity() {
                Some(v) => Some(Stmt::Velocity(v)),
                None => None,
            };
        }
        if self.check_ident("articulation") {
            return match self.parse_articulation() {
                Some(v) => Some(Stmt::Articulation(v)),
                None => None,
            };
        }
        if self.check_ident("section") {
            return match self.parse_section() {
                Some(v) => Some(Stmt::Section(v)),
                None => None,
            };
        }
        if self.check_ident("ornament") {
            return match self.parse_kind_block("ornament") {
                Some((kind, statements, span)) => Some(
                    Stmt::Ornament(
                        OrnamentStmt {
                            kind,
                            statements,
                            line: span.line,
                            column: span.column,
                            span,
                        },
                    ),
                ),
                None => None,
            };
        }
        if self.check_ident("non_chord_tone") {
            return match self.parse_kind_block("non_chord_tone") {
                Some((kind, statements, span)) => Some(
                    Stmt::NonChordTone(
                        NonChordToneStmt {
                            kind,
                            statements,
                            line: span.line,
                            column: span.column,
                            span,
                        },
                    ),
                ),
                None => None,
            };
        }
        if self.check_ident("tuning_system") {
            return match self.parse_kind_block("tuning_system") {
                Some((kind, statements, span)) => Some(
                    Stmt::TuningSystem(
                        TuningSystemStmt {
                            kind,
                            statements,
                            line: span.line,
                            column: span.column,
                            span,
                        },
                    ),
                ),
                None => None,
            };
        }
        if self.check_ident("world_tradition") {
            return match self.parse_kind_block("world_tradition") {
                Some((kind, statements, span)) => Some(
                    Stmt::WorldTradition(
                        WorldTraditionStmt {
                            kind,
                            statements,
                            line: span.line,
                            column: span.column,
                            span,
                        },
                    ),
                ),
                None => None,
            };
        }
        if self.check_ident("historical_era") {
            return match self.parse_kind_block("historical_era") {
                Some((kind, statements, span)) => Some(
                    Stmt::HistoricalEra(
                        HistoricalEraStmt {
                            kind,
                            statements,
                            line: span.line,
                            column: span.column,
                            span,
                        },
                    ),
                ),
                None => None,
            };
        }
        if self.check_ident("harmonic_function") {
            return match self.parse_kind_block("harmonic_function") {
                Some((kind, statements, span)) => Some(
                    Stmt::HarmonicFunction(
                        HarmonicFunctionStmt {
                            kind,
                            statements,
                            line: span.line,
                            column: span.column,
                            span,
                        },
                    ),
                ),
                None => None,
            };
        }
        if self.check_ident("for") {
            return match self.parse_for() {
                Some(v) => Some(Stmt::For(v)),
                None => None,
            };
        }
        if self.check_ident("if") {
            return match self.parse_if() {
                Some(v) => Some(Stmt::If(v)),
                None => None,
            };
        }
        if self.check_ident("let") {
            return match self.parse_let() {
                Some(v) => Some(Stmt::Let(v)),
                None => None,
            };
        }
        if self.check_ident("call") {
            return match self.parse_call() {
                Some(v) => Some(Stmt::Call(v)),
                None => None,
            };
        }
        if self.check_ident("override") {
            return match self.parse_override() {
                Some(v) => Some(Stmt::Override(v)),
                None => None,
            };
        }
        if self.check_ident("with") {
            return match self.parse_with_style() {
                Some(v) => Some(Stmt::WithStyle(v)),
                None => None,
            };
        }
        let token = self.peek().duplicate();
        let message = concat3("unrecognized statement `", token.text(), "`");
        self.push_token_diagnostic("ML_PARSE_STMT", message.as_str(), &token);
        None
    }

    fn parse_voice(&mut self) -> (r: Option<VoiceDecl>)
        requires
            old(self).wf(),
            old(self).at_ident("voice"@),
        ensures
            old(self).moved(*final(self)),
            final(self).index > old(self).index,
        decreases old(self).remaining(), 0nat,
    {
        let start = match self.expect_ident_text("voice") {
            Some(t) => t,
            None => return None,
        };
        let name = match self.expect_name() {
            Some(n) => n,
            None => return None,
        };
        match self.expect(TokenKind::LBrace, "expected `{` to start voice block") {
            Some(_) => {},
            None => return None,
        }
        let mut program: Option<u8> = None;
        let mut volume: Option<u8> = None;
        let mut pan: Option<u8> = None;
        let mut statements: Vec<Stmt> = Vec::new();
        while !self.check(TokenKind::RBrace) && !self.check(TokenKind::Eof)
            invariant
                self.wf(),
                self.tokens@ == old(self).tokens@,
                self.index > old(self).index,
            decreases self.remaining(),
        {
            if self.check_ident("program") || self.check_ident("instrument") {
                match self.parse_midi_value() {
                    Some(v) => program = Some(v),
                    None => return None,
                }
            } else if self.check_ident("volume") {
                match self.parse_midi_value() {
                    Some(v) => volume = Some(v),
                    None => return None,
                }
            } else if self.check_ident("pan") {
                match self.parse_midi_value() {
                    Some(v) => pan = Some(v),
                    None => return None,
                }
            } else {
                match self.parse_stmt() {
                    Some(stmt) => statements.push(stmt),
                    None => {
                        self.advance();
                    },
                }
            }
        }
        match self.expect(TokenKind::RBrace, "expected `}` to close voice block") {
            Some(_) => {},
            None => return None,
        }
        let span = start.span();
        Some(
            VoiceDecl {
                name,
                program,
                volume,
                pan,
                statements,
                line: span.line,
                column: span.column,
                span,
            },
        )
    }

    fn parse_text_meta(&mut self, key: &str) -> (r: Option<TextMetaDecl>)
        requires
            old(self).wf(),
        ensures
            old(self).moved(*final(self)),
            r is Some ==> final(self).index > old(self).index,
            r is Some <==> old(self).at_ident(key@) && old(self).ahead(1).kind_spec() == TokenKind::String,
            r matches Some(m) ==> m.value@ == old(self).ahead(1).text_spec() && placed_at(
                m.line,
                m.column,
                m.span,
                old(self).current(),
            ) && final(self).index == old(self).index + 2,
    {
        let start = match self.expect_ident_text(key) {
            Some(t) => t,
            None => return None,
        };
        let value = match self.expect_string() {
            Some(v) => v,
            None => return None,
        };
        let span = start.span();
        Some(TextMetaDecl { value, line: span.line, column: span.column, span })
    }

    fn parse_tempo(&mut self) -> (r: Option<TempoDecl>)
        requires
            old(self).wf(),
        ensures
            old(self).moved(*final(self)),
            r is Some ==> final(self).index > old(self).index,
            r is Some <==> old(self).at_ident("tempo"@) && old(self).ahead(1).kind_spec() == TokenKind::Number
                && crate::text::parse_int_spec(
                old(self).ahead(1).text_spec(),
                true,
                i32::MIN as int,
                i32::MAX as int,
            ) is Some,
            r matches Some(t) ==> t.bpm == tempo_bpm(
                crate::text::parse_int_spec(
                    old(self).ahead(1).text_spec(),
                    true,
                    i32::MIN as int,
                    i32::MAX as int,
                )->0,
            ) && placed_at(t.line, t.column, t.span, old(self).current()),
    {
        let start = match self.expect_ident_text("tempo") {
            Some(t) => t,
            None => return None,
        };
        let bpm = match self.expect_number() {
            Some(v) => v,
            None => return None,
        };
        let clamped: i32 = if bpm < 1 {
            1
        } else {
            bpm
        };
        let span = start.span();
        Some(
            TempoDecl {
                bpm: (clamped % 65536) as u16,
                line: span.line,
                column: span.column,
                span,
            },
        )
    }

    fn parse_meter(&mut self) -> (r: Option<MeterDecl>)
        requires
            old(self).wf(),
        ensures
            old(self).moved(*final(self)),
            r is Some ==> final(self).index > old(self).index,
            r is Some <==> old(self).at_ident("meter"@) && old(self).ahead(1).kind_spec()
                == TokenKind::Duration && meter_parts(old(self).ahead(1).text_spec()) is Some,
            r matches Some(m) ==> meter_parts(old(self).ahead(1).text_spec()) == Some(
                (m.numerator as int, m.denominator as int),
            ) && placed_at(m.line, m.column, m.span, old(self).current()),
            r is None ==> final(self).diagnostics@.len() > old(self).diagnostics@.len(),
    {
        let start = match self.expect_ident_text("meter") {
            Some(t) => t,
            None => return None,
        };
        let token = self.peek().duplicate();
        let value = match self.expect_duration_literal() {
            Some(v) => v,
            None => return None,
        };
        let (numerator, denominator) = match split_once(value.as_str(), '/') {
            Some(pair) => pair,
            None => {
                self.push_token_diagnostic("ML_PARSE_METER", "expected meter such as 4/4", &token);
                return None;
            },
        };
        let numerator = match parse_u8(numerator.as_str()) {
            Some(n) => n,
            None => {
                self.push_token_diagnostic("ML_PARSE_METER", "expected meter such as 4/4", &token);
                return None;
            },
        };
        let denominator = match parse_u8(denominator.as_str()) {
            Some(n) => n,
            None => {
                self.push_token_diagnostic("ML_PARSE_METER", "expected meter such as 4/4", &token);
                return None;
            },
        };
        let span = start.span();
        Some(MeterDecl { numerator, denominator, line: span.line, column: span.column, span })
    }

    fn key_mode(&mut self) -> (r: Option<String>)
        requires
            old(self).wf(),
        ensures
            old(self).moved(*final(self)),
            ({
                let t = old(self).current();
                if statement_word_spec(t.text_spec()) || t.kind_spec() == TokenKind::RBrace
                    || t.kind_spec() == TokenKind::Eof {
                    (r matches Some(m) && m@ == "major"@) && *final(self) == *old(self)
                } else {
                    &&& (r is Some <==> name_kind(t.kind_spec()))
                    &&& (r matches Some(m) ==> m@ == t.text_spec() && final(self).index == old(self).index + 1)
                }
            }),
    {
        if self.current_starts_statement() || self.check(TokenKind::RBrace) || self.check(
            TokenKind::Eof,
        ) {
            Some(owned("major"))
        } else {
            self.expect_name()
        }
    }

    fn parse_key(&mut self) -> (r: Option<KeyDecl>)
        requires
            old(self).wf(),
        ensures
            old(self).moved(*final(self)),
            r is Some ==> final(self).index > old(self).index,
            r is Some <==> old(self).at_ident("key"@) && name_kind(old(self).ahead(1).kind_spec())
                && key_mode_of(old(self).ahead(2)) is Some,
            r matches Some(k) ==> k.tonic@ == old(self).ahead(1).text_spec() && k.mode@ == key_mode_of(
                old(self).ahead(2),
            )->0 && placed_at(k.line, k.column, k.span, old(self).current()),
    {
        let start = match self.expect_ident_text("key") {
            Some(t) => t,
            None => return None,
        };
        let tonic = match self.expect_name() {
            Some(n) => n,
            None => return None,
        };
        let mode = match self.key_mode() {
            Some(m) => m,
            None => return None,
        };
        let span = start.span();
        Some(KeyDecl { tonic, mode, line: span.line, column: span.column, span })
    }

    /// Reads `program n`, `instrument n`, `volume n` or `pan n`, clamping `n` to `0..=127`.
    fn parse_midi_value(&mut self) -> (r: Option<u8>)
        requires
            old(self).wf(),
            ident_like(old(self).current().kind_spec()),
        ensures
            old(self).moved(*final(self)),
            final(self).index > old(self).index,
            r matches Some(v) ==> v <= 127,
    {
        self.advance();
        let value = match self.expect_number() {
            Some(v) => v,
            None => return None,
        };
        let clamped: i32 = if value < 0 {
            0
        } else if value > 127 {
            127
        } else {
            value
        };
        Some(clamped as u8)
    }

    fn parse_note(&mut self) -> (r: Option<NoteStmt>)
        requires
            old(self).wf(),
            old(self).at_ident("note"@),
        ensures
            old(self).moved(*final(self)),
            final(self).index > old(self).index,
            r matches Some(n) ==> note_at(old(self).tokens@, old(self).index as int, final(self).index as int, n),
            r is None ==> forall|end: int, n: NoteStmt|
                !#[trigger] note_at(old(self).tokens@, old(self).index as int, end, n),
    {
        let ghost i = self.index as int;
        let ghost tokens = self.tokens@;
        let start = match self.expect_ident_text("note") {
            Some(t) => t,
            None => return None,
        };
        let pitch_expr = match self.parse_expr_until(TokenKind::Comma, None) {
            Some(e) => e,
            None => {
                proof {
                    let m = self.index as int;
                    assert forall|end: int, n: NoteStmt| !#[trigger] note_at(tokens, i, end, n) by {
                        if note_at(tokens, i, end, n) {
                            let m2 = choose|m2: int|
                                #[trigger] scanned_to(tokens, i + 1, m2, until_stops(TokenKind::Comma, None))
                                    && reads_as(tokens, i + 1, m2, n.pitch_expr);
                            lemma_scan_unique(tokens, i + 1, m, m2, until_stops(TokenKind::Comma, None));
                        }
                    }
                }
                return None;
            },
        };
        let ghost m = self.index as int;
        match self.expect(TokenKind::Comma, "expected `,` after note pitch") {
            Some(_) => {},
            None => {
                proof {
                    assert forall|end: int, n: NoteStmt| !#[trigger] note_at(tokens, i, end, n) by {
                        if note_at(tokens, i, end, n) {
                            let m2 = choose|m2: int|
                                #[trigger] scanned_to(tokens, i + 1, m2, until_stops(TokenKind::Comma, None))
                                    && tokens[m2].kind_spec() == TokenKind::Comma;
                            lemma_scan_unique(tokens, i + 1, m, m2, until_stops(TokenKind::Comma, None));
                        }
                    }
                }
                return None;
            },
        }
        let duration_expr = match self.parse_expr_until_stmt_end() {
            Some(e) => e,
            None => {
                proof {
                    let end0 = self.index as int;
                    assert(scanned_to(tokens, m + 1, end0, stmt_end_stops()));
                    assert forall|end: int, n: NoteStmt| !#[trigger] note_at(tokens, i, end, n) by {
                        if note_at(tokens, i, end, n) {
                            let m2 = choose|m2: int|
                                #[trigger] scanned_to(tokens, i + 1, m2, until_stops(TokenKind::Comma, None))
                                    && scanned_to(tokens, m2 + 1, end, stmt_end_stops())
                                    && reads_as(tokens, m2 + 1, end, n.duration_expr);
                            lemma_scan_unique(tokens, i + 1, m, m2, until_stops(TokenKind::Comma, None));
                            lemma_scan_unique(tokens, m + 1, end0, end, stmt_end_stops());
                        }
                    }
                }
                return None;
            },
        };
        let span = start.span();
        proof {
            assert(scanned_to(tokens, m + 1, self.index as int, stmt_end_stops()));
        }
        Some(
            NoteStmt {
                pitch: expr_to_source(&pitch_expr),
                duration: expr_to_source(&duration_expr),
                pitch_expr,
                duration_expr,
                line: span.line,
                column: span.column,
                span,
            },
        )
    }

    fn parse_rest(&mut self) -> (r: Option<RestStmt>)
        requires
            old(self).wf(),
            old(self).at_ident("rest"@),
        ensures
            old(self).moved(*final(self)),
            final(self).index > old(self).index,
            scanned_to(old(self).tokens@, old(self).index + 1, final(self).index as int, stmt_end_stops()),
            r matches Some(rs) ==> reads_as(
                old(self).tokens@,
                old(self).index + 1,
                final(self).index as int,
                rs.duration_expr,
            ) && placed_at(rs.line, rs.column, rs.span, old(self).current()),
            r is None ==> forall|e: Expr|
                !#[trigger] reads_as(old(self).tokens@, old(self).index + 1, final(self).index as int, e),
    {
        let start = match self.expect_ident_text("rest") {
            Some(t) => t,
            None => return None,
        };
        let duration_expr = match self.parse_expr_until_stmt_end() {
            Some(e) => e,
            None => return None,
        };
        let span = start.span();
        Some(
            RestStmt {
                duration: expr_to_source(&duration_expr),
                duration_expr,
                line: span.line,
                column: span.column,
                span,
            },
        )
    }

    fn parse_degree(&mut self) -> (r: Option<DegreeStmt>)
        requires
            old(self).wf(),
            old(self).at_ident("degree"@),
        ensures
            old(self).moved(*final(self)),
            final(self).index > old(self).index,
    {
        let start = match self.expect_ident_text("degree") {
            Some(t) => t,
            None => return None,
        };
        let degree = match self.expect_scale_degree() {
            Some(d) => d,
            None => return None,
        };
        let octave = match self.expect_number() {
            Some(o) => o,
            None => return None,
        };
        match self.expect(TokenKind::Comma, "expected `,` after scale degree octave") {
            Some(_) => {},
            None => return None,
        }
        let duration_expr = match self.parse_expr_until_stmt_end() {
            Some(e) => e,
            None => return None,
        };
        let span = start.span();
        Some(
            DegreeStmt {
                degree,
                octave,
                duration: expr_to_source(&duration_expr),
                duration_expr,
                line: span.line,
                column: span.column,
                span,
            },
        )
    }

    fn parse_pedal(&mut self) -> (r: Option<PedalStmt>)
        requires
            old(self).wf(),
            old(self).at_ident("pedal"@),
        ensures
            old(self).moved(*final(self)),
            final(self).index > old(self).index,
    {
        let start = match self.expect_ident_text("pedal") {
            Some(t) => t,
            None => return None,
        };
        let pitch_expr = match self.parse_expr_until(TokenKind::Comma, None) {
            Some(e) => e,
            None => return None,
        };
        match self.expect(TokenKind::Comma, "expected `,` after pedal pitch") {
            Some(_) => {},
            None => return None,
        }
        let count_expr = match self.parse_expr_until(TokenKind::Comma, None) {
            Some(e) => e,
            None => return None,
        };
        match self.expect(TokenKind::Comma, "expected `,` after pedal count") {
            Some(_) => {},
            None => return None,
        }
        let duration_expr = match self.parse_expr_until_stmt_end() {
            Some(e) => e,
            None => return None,
        };
        let count = match count_expr.kind {
            ExprKind::Int(value) => value,
            _ => 0,
        };
        let span = start.span();
        Some(
            PedalStmt {
                pitch: expr_to_source(&pitch_expr),
                count,
                duration: expr_to_source(&duration_expr),
                pitch_expr,
                count_expr,
                duration_expr,
                line: span.line,
                column: span.column,
                span,
            },
        )
    }

    fn parse_ostinato(&mut self) -> (r: Option<OstinatoStmt>)
        requires
            old(self).wf(),
            old(self).at_ident("ostinato"@),
        ensures
            old(self).moved(*final(self)),
            final(self).index > old(self).index,
        decreases old(self).remaining(), 0nat,
    {
        let start = match self.expect_ident_text("ostinato") {
            Some(t) => t,
            None => return None,
        };
        let count_expr = match self.parse_expr_until(TokenKind::LBrace, None) {
            Some(e) => e,
            None => return None,
        };
        let count = match count_expr.kind {
            ExprKind::Int(value) => value,
            _ => 0,
        };
        let statements = match self.parse_required_block() {
            Some(s) => s,
            None => return None,
        };
        let span = start.span();
        Some(
            OstinatoStmt {
                count,
                count_expr,
                statements,
                line: span.line,
                column: span.column,
                span,
            },
        )
    }

    fn parse_sequence(&mut self) -> (r: Option<SequenceStmt>)
        requires
            old(self).wf(),
            old(self).at_ident("sequence"@),
        ensures
            old(self).moved(*final(self)),
            final(self).index > old(self).index,
        decreases old(self).remaining(), 0nat,
    {
        let start = match self.expect_ident_text("sequence") {
            Some(t) => t,
            None => return None,
        };
        let count_expr = match self.parse_expr_until(TokenKind::Eof, Some("by")) {
            Some(e) => e,
            None => return None,
        };
        match self.expect_ident_text("by") {
            Some(_) => {},
            None => return None,
        }
        let interval_expr = match self.parse_expr_until(TokenKind::LBrace, None) {
            Some(e) => e,
            None => return None,
        };
        let count = match count_expr.kind {
            ExprKind::Int(value) => value,
            _ => 0,
        };
        let statements = match self.parse_required_block() {
            Some(s) => s,
            None => return None,
        };
        let span = start.span();
        Some(
            SequenceStmt {
                count,
                count_expr,
                interval: expr_to_source(&interval_expr),
                interval_expr,
                statements,
                line: span.line,
                column: span.column,
                span,
            },
        )
    }

    fn parse_transpose(&mut self) -> (r: Option<TransposeStmt>)
        requires
            old(self).wf(),
            old(self).at_ident("transpose"@),
        ensures
            old(self).moved(*final(self)),
            final(self).index > old(self).index,
        decreases old(self).remaining(), 0nat,
    {
        let start = match self.expect_ident_text("transpose") {
            Some(t) => t,
            None => return None,
        };
        let interval_expr = match self.parse_expr_until(TokenKind::LBrace, None) {
            Some(e) => e,
            None => return None,
        };
        let statements = match self.parse_required_block() {
            Some(s) => s,
            None => return None,
        };
        let span = start.span();
        Some(
            TransposeStmt {
                interval: expr_to_source(&interval_expr),
                interval_expr,
                statements,
                line: span.line,
                column: span.column,
                span,
            },
        )
    }

    fn parse_chord(&mut self) -> (r: Option<ChordStmt>)
        requires
            old(self).wf(),
            old(self).at_ident("chord"@),
        ensures
            old(self).moved(*final(self)),
            final(self).index > old(self).index,
            old(self).ahead(1).kind_spec() == TokenKind::LBracket ==> (r matches Some(c) ==> chord_list_at(
                old(self).tokens@,
                old(self).index as int,
                final(self).index as int,
                c,
            )),
    {
        let ghost i = self.index as int;
        let ghost tokens = self.tokens@;
        let start = match self.expect_ident_text("chord") {
            Some(t) => t,
            None => return None,
        };
        let span = start.span();
        if self.check(TokenKind::LBracket) {
            self.advance();
            let mut pitch_exprs: Vec<Expr> = Vec::new();
            let mut pitches: Vec<String> = Vec::new();
            assert(self.index == i + 2);
            while !self.check(TokenKind::RBracket) && !self.check(TokenKind::Eof)
                invariant
                    self.wf(),
                    self.tokens@ == old(self).tokens@,
                    tokens == old(self).tokens@,
                    self.index > old(self).index,
                    items_read(tokens, i + 2, self.index as int, pitch_exprs@),
                decreases self.remaining(),
            {
                let ghost m1 = self.index as int;
                let ghost before = pitch_exprs@;
                let e = match self.parse_expr_until_list_item() {
                    Some(e) => e,
                    None => return None,
                };
                let ghost m2 = self.index as int;
                assert(scanned_to(tokens, m1, m2, list_item_stops()));
                pitches.push(expr_to_source(&e));
                pitch_exprs.push(e);
                if self.check(TokenKind::Comma) {
                    self.advance();
                }
                proof {
                    assert(pitch_exprs@.drop_last() =~= before);
                    assert(items_read(tokens, i + 2, m1, pitch_exprs@.drop_last()));
                }
            }
            let ghost q = self.index as int;
            match self.expect(TokenKind::RBracket, "expected `]` after chord pitches") {
                Some(_) => {},
                None => return None,
            }
            match self.expect(TokenKind::Comma, "expected `,` after chord pitches") {
                Some(_) => {},
                None => return None,
            }
            let duration_expr = match self.parse_expr_until_stmt_end() {
                Some(e) => e,
                None => return None,
            };
            proof {
                assert(scanned_to(tokens, q + 2, self.index as int, stmt_end_stops()));
                assert(items_read(tokens, i + 2, q, pitch_exprs@) && tokens[q].kind_spec() == TokenKind::RBracket
                    && tokens[q + 1].kind_spec() == TokenKind::Comma);
                assert(reads_as(tokens, q + 2, self.index as int, duration_expr));
                assert(placed_at(span.line, span.column, span, tokens[i]));
            }
            let chord = ChordStmt {
                pitches,
                duration: expr_to_source(&duration_expr),
                pitch_exprs,
                root_expr: None,
                quality: None,
                duration_expr,
                line: span.line,
                column: span.column,
                span,
            };
            proof {
                assert(items_read(tokens, i + 2, q, chord.pitch_exprs@));
                assert(tokens[i + 1].kind_spec() == TokenKind::LBracket);
                assert(chord_list_at(tokens, i, self.index as int, chord));
            }
            return Some(chord);
        }
        let (root_expr, quality) = match self.parse_named_chord_head() {
            Some(pair) => pair,
            None => return None,
        };
        match self.expect(TokenKind::Comma, "expected `,` after chord quality") {
            Some(_) => {},
            None => return None,
        }
        let duration_expr = match self.parse_expr_until_stmt_end() {
            Some(e) => e,
            None => return None,
        };
        Some(
            ChordStmt {
                pitches: Vec::new(),
                duration: expr_to_source(&duration_expr),
                pitch_exprs: Vec::new(),
                root_expr: Some(root_expr),
                quality: Some(quality),
                duration_expr,
                line: span.line,
                column: span.column,
                span,
            },
        )
    }

    fn parse_roman(&mut self) -> (r: Option<RomanStmt>)
        requires
            old(self).wf(),
            old(self).at_ident("roman"@),
        ensures
            old(self).moved(*final(self)),
            final(self).index > old(self).index,
    {
        let start = match self.expect_ident_text("roman") {
            Some(t) => t,
            None => return None,
        };
        let symbol_expr = match self.parse_expr_until(TokenKind::Comma, None) {
            Some(e) => e,
            None => return None,
        };
        let symbol = expr_to_source(&symbol_expr);
        match self.expect(TokenKind::Comma, "expected `,` after roman numeral") {
            Some(_) => {},
            None => return None,
        }
        let duration_expr = match self.parse_expr_until_stmt_end() {
            Some(e) => e,
            None => return None,
        };
        let span = start.span();
        Some(
            RomanStmt {
                symbol,
                duration: expr_to_source(&duration_expr),
                duration_expr,
                line: span.line,
                column: span.column,
                span,
            },
        )
    }

    fn parse_progression(&mut self) -> (r: Option<ProgressionStmt>)
        requires
            old(self).wf(),
            old(self).at_ident("progression"@),
        ensures
            old(self).moved(*final(self)),
            final(self).index > old(self).index,
    {
        let start = match self.expect_ident_text("progression") {
            Some(t) => t,
            None => return None,
        };
        let symbols = match self.parse_progression_symbols() {
            Some(s) => s,
            None => return None,
        };
        match self.expect(TokenKind::Comma, "expected `,` after harmonic progression") {
            Some(_) => {},
            None => return None,
        }
        let duration_expr = match self.parse_expr_until_stmt_end() {
            Some(e) => e,
            None => return None,
        };
        let span = start.span();
        Some(
            ProgressionStmt {
                symbols,
                duration: expr_to_source(&duration_expr),
                duration_expr,
                line: span.line,
                column: span.column,
                span,
            },
        )
    }

    fn parse_cadence(&mut self) -> (r: Option<CadenceStmt>)
        requires
            old(self).wf(),
            old(self).at_ident("cadence"@),
        ensures
            old(self).moved(*final(self)),
            final(self).index > old(self).index,
    {
        let start = match self.expect_ident_text("cadence") {
            Some(t) => t,
            None => return None,
        };
        let kind = match self.expect_name() {
            Some(k) => k,
            None => return None,
        };
        match self.expect(TokenKind::Comma, "expected `,` after cadence kind") {
            Some(_) => {},
            None => return None,
        }
        let duration_expr = match self.parse_expr_until_stmt_end() {
            Some(e) => e,
            None => return None,
        };
        let span = start.span();
        Some(
            CadenceStmt {
                kind,
                duration: expr_to_source(&duration_expr),
                duration_expr,
                line: span.line,
                column: span.column,
                span,
            },
        )
    }

    fn parse_modulate(&mut self) -> (r: Option<ModulateStmt>)
        requires
            old(self).wf(),
            old(self).at_ident("modulate"@),
        ensures
            old(self).moved(*final(self)),
            final(self).index > old(self).index,
    {
        let start = match self.expect_ident_text("modulate") {
            Some(t) => t,
            None => return None,
        };
        let tonic = match self.expect_name() {
            Some(n) => n,
            None => return None,
        };
        let mode = match self.key_mode() {
            Some(m) => m,
            None => return None,
        };
        let span = start.span();
        Some(ModulateStmt { tonic, mode, line: span.line, column: span.column, span })
    }

    fn parse_dynamic(&mut self) -> (r: Option<DynamicStmt>)
        requires
            old(self).wf(),
            old(self).at_ident("dynamic"@),
        ensures
            old(self).moved(*final(self)),
            final(self).index > old(self).index,
            r is Some <==> name_kind(old(self).ahead(1).kind_spec()),
            r matches Some(s) ==> s.mark@ == old(self).ahead(1).text_spec() && placed_at(
                s.line,
                s.column,
                s.span,
                old(self).current(),
            ),
    {
        let start = match self.expect_ident_text("dynamic") {
            Some(t) => t,
            None => return None,
        };
        let mark = match self.expect_name() {
            Some(m) => m,
            None => return None,
        };
        let span = start.span();
        Some(DynamicStmt { mark, line: span.line, column: span.column, span })
    }

    fn parse_velocity(&mut self) -> (r: Option<VelocityStmt>)
        requires
            old(self).wf(),
            old(self).at_ident("velocity"@),
        ensures
            old(self).moved(*final(self)),
            final(self).index > old(self).index,
            r matches Some(v) ==> v.velocity <= 127,
            r is Some <==> old(self).ahead(1).kind_spec() == TokenKind::Number && crate::text::parse_int_spec(
                old(self).ahead(1).text_spec(),
                true,
                i32::MIN as int,
                i32::MAX as int,
            ) is Some,
            r matches Some(v) ==> v.velocity == velocity_clamp(
                crate::text::parse_int_spec(
                    old(self).ahead(1).text_spec(),
                    true,
                    i32::MIN as int,
                    i32::MAX as int,
                )->0,
            ) && placed_at(v.line, v.column, v.span, old(self).current()),
    {
        let start = match self.expect_ident_text("velocity") {
            Some(t) => t,
            None => return None,
        };
        let value = match self.expect_number() {
            Some(v) => v,
            None => return None,
        };
        let clamped: i32 = if value < 0 {
            0
        } else if value > 127 {
            127
        } else {
            value
        };
        let span = start.span();
        Some(
            VelocityStmt {
                velocity: clamped as u8,
                line: span.line,
                column: span.column,
                span,
            },
        )
    }

    fn parse_articulation(&mut self) -> (r: Option<ArticulationStmt>)
        requires
            old(self).wf(),
            old(self).at_ident("articulation"@),
        ensures
            old(self).moved(*final(self)),
            final(self).index > old(self).index,
            r is Some <==> name_kind(old(self).ahead(1).kind_spec()),
            r matches Some(s) ==> s.mark@ == old(self).ahead(1).text_spec() && placed_at(
                s.line,
                s.column,
                s.span,
                old(self).current(),
            ),
    {
        let start = match self.expect_ident_text("articulation") {
            Some(t) => t,
            None => return None,
        };
        let mark = match self.expect_name() {
            Some(m) => m,
            None => return None,
        };
        let span = start.span();
        Some(ArticulationStmt { mark, line: span.line, column: span.column, span })
    }

    fn parse_section(&mut self) -> (r: Option<SectionStmt>)
        requires
            old(self).wf(),
            old(self).at_ident("section"@),
        ensures
            old(self).moved(*final(self)),
            final(self).index > old(self).index,
            r matches Some(s) ==> section_head(old(self).tokens@, old(self).index as int, s),
        decreases old(self).remaining(), 0nat,
    {
        let start = match self.expect_ident_text("section") {
            Some(t) => t,
            None => return None,
        };
        let label = match self.expect_name() {
            Some(l) => l,
            None => return None,
        };
        let statements = match self.parse_required_block() {
            Some(s) => s,
            None => return None,
        };
        let span = start.span();
        Some(SectionStmt { label, statements, line: span.line, column: span.column, span })
    }

    /// Reads `keyword kind { ... }`, the shape of the annotation statements.
    fn parse_kind_block(&mut self, keyword: &str) -> (r: Option<(String, Vec<Stmt>, Span)>)
        requires
            old(self).wf(),
            old(self).at_ident(keyword@),
        ensures
            old(self).moved(*final(self)),
            final(self).index > old(self).index,
        decreases old(self).remaining(), 0nat,
    {
        let start = match self.expect_ident_text(keyword) {
            Some(t) => t,
            None => return None,
        };
        let kind = match self.expect_name() {
            Some(k) => k,
            None => return None,
        };
        let statements = match self.parse_required_block() {
            Some(s) => s,
            None => return None,
        };
        Some((kind, statements, start.span()))
    }

    fn parse_for(&mut self) -> (r: Option<ForStmt>)
        requires
            old(self).wf(),
            old(self).at_ident("for"@),
        ensures
            old(self).moved(*final(self)),
            final(self).index > old(self).index,
            r matches Some(f) ==> for_head(old(self).tokens@, old(self).index as int, f),
        decreases old(self).remaining(), 0nat,
    {
        let start = match self.expect_ident_text("for") {
            Some(t) => t,
            None => return None,
        };
        let variable = match self.expect_name() {
            Some(v) => v,
            None => return None,
        };
        match self.expect_ident_text("in") {
            Some(_) => {},
            None => return None,
        }
        let range_start = match self.expect_number() {
            Some(v) => v,
            None => return None,
        };
        match self.expect(TokenKind::DotDot, "expected `..` in for range") {
            Some(_) => {},
            None => return None,
        }
        let range_end = match self.expect_number() {
            Some(v) => v,
            None => return None,
        };
        let statements = match self.parse_required_block() {
            Some(s) => s,
            None => return None,
        };
        let span = start.span();
        Some(
            ForStmt {
                variable,
                start: range_start,
                end: range_end,
                statements,
                line: span.line,
                column: span.column,
                span,
            },
        )
    }

    fn parse_if(&mut self) -> (r: Option<IfStmt>)
        requires
            old(self).wf(),
            old(self).at_ident("if"@),
        ensures
            old(self).moved(*final(self)),
            final(self).index > old(self).index,
            r matches Some(c) ==> if_head(old(self).tokens@, old(self).index as int, c),
        decreases old(self).remaining(), 0nat,
    {
        let start = match self.expect_ident_text("if") {
            Some(t) => t,
            None => return None,
        };
        let condition = match self.parse_expr_until(TokenKind::LBrace, None) {
            Some(e) => e,
            None => return None,
        };
        let (left, equals) = if_parts(&condition);
        let statements = match self.parse_required_block() {
            Some(s) => s,
            None => return None,
        };
        let span = start.span();
        Some(
            IfStmt {
                left,
                equals,
                condition,
                statements,
                line: span.line,
                column: span.column,
                span,
            },
        )
    }

    fn parse_let(&mut self) -> (r: Option<LetStmt>)
        requires
            old(self).wf(),
            old(self).at_ident("let"@),
        ensures
            old(self).moved(*final(self)),
            final(self).index > old(self).index,
            r matches Some(l) ==> let_at(old(self).tokens@, old(self).index as int, final(self).index as int, l),
            r is None ==> forall|end: int, l: LetStmt|
                !#[trigger] let_at(old(self).tokens@, old(self).index as int, end, l),
    {
        let ghost i = self.index as int;
        let ghost tokens = self.tokens@;
        let start = match self.expect_ident_text("let") {
            Some(t) => t,
            None => return None,
        };
        let name = match self.expect_name() {
            Some(n) => n,
            None => return None,
        };
        match self.expect(TokenKind::Eq, "expected `=` in let statement") {
            Some(_) => {},
            None => return None,
        }
        let value_expr = match self.parse_expr_until_stmt_end() {
            Some(e) => e,
            None => {
                proof {
                    let end0 = self.index as int;
                    assert forall|end: int, l: LetStmt| !#[trigger] let_at(tokens, i, end, l) by {
                        if let_at(tokens, i, end, l) {
                            lemma_scan_unique(tokens, i + 3, end0, end, stmt_end_stops());
                        }
                    }
                }
                return None;
            },
        };
        let span = start.span();
        Some(
            LetStmt {
                name,
                value: expr_to_source(&value_expr),
                value_expr,
                line: span.line,
                column: span.column,
                span,
            },
        )
    }

    fn parse_call(&mut self) -> (r: Option<CallStmt>)
        requires
            old(self).wf(),
            old(self).at_ident("call"@),
        ensures
            old(self).moved(*final(self)),
            final(self).index > old(self).index,
            r is Some <==> name_kind(old(self).ahead(1).kind_spec()),
            r matches Some(s) ==> s.name@ == old(self).ahead(1).text_spec() && placed_at(
                s.line,
                s.column,
                s.span,
                old(self).current(),
            ),
    {
        let start = match self.expect_ident_text("call") {
            Some(t) => t,
            None => return None,
        };
        let name = match self.expect_name() {
            Some(n) => n,
            None => return None,
        };
        let span = start.span();
        Some(CallStmt { name, line: span.line, column: span.column, span })
    }

    fn parse_override(&mut self) -> (r: Option<OverrideStmt>)
        requires
            old(self).wf(),
            old(self).at_ident("override"@),
        ensures
            old(self).moved(*final(self)),
            final(self).index > old(self).index,
            r matches Some(o) ==> override_head(old(self).tokens@, old(self).index as int, o),
        decreases old(self).remaining(), 0nat,
    {
        let start = match self.expect_ident_text("override") {
            Some(t) => t,
            None => return None,
        };
        let rule = match self.expect_name() {
            Some(n) => n,
            None => return None,
        };
        match self.expect_ident_text("allow") {
            Some(_) => {},
            None => return None,
        }
        let reason = if self.check_ident("reason") {
            self.advance();
            match self.expect_string() {
                Some(s) => Some(s),
                None => return None,
            }
        } else {
            None
        };
        let statements = match self.parse_required_block() {
            Some(s) => s,
            None => return None,
        };
        let span = start.span();
        Some(
            OverrideStmt {
                rule,
                reason,
                statements,
                line: span.line,
                column: span.column,
                span,
            },
        )
    }

    fn parse_with_style(&mut self) -> (r: Option<WithStyleStmt>)
        requires
            old(self).wf(),
            old(self).at_ident("with"@),
        ensures
            old(self).moved(*final(self)),
            final(self).index > old(self).index,
            r matches Some(w) ==> with_style_head(old(self).tokens@, old(self).index as int, w),
        decreases old(self).remaining(), 0nat,
    {
        let start = match self.expect_ident_text("with") {
            Some(t) => t,
            None => return None,
        };
        match self.expect_ident_text("style") {
            Some(_) => {},
            None => return None,
        }
        let style = match self.expect_name() {
            Some(n) => n,
            None => return None,
        };
        let statements = match self.parse_required_block() {
            Some(s) => s,
            None => return None,
        };
        let span = start.span();
        Some(WithStyleStmt { style, statements, line: span.line, column: span.column, span })
    }

    /// Gathers the tokens up to a stop at bracket depth 0 (a token kind, or an identifier
    /// such as `by`), or up to `Eof`, and reads them as an expression.
    fn parse_expr_until(&mut self, stop: TokenKind, extra: Option<&str>) -> (r: Option<Expr>)
        requires
            old(self).wf(),
        ensures
            old(self).moved(*final(self)),
            r is Some ==> final(self).index > old(self).index,
            scanned_to(
                old(self).tokens@,
                old(self).index as int,
                final(self).index as int,
                until_stops(
                    stop,
                    match extra {
                        Some(w) => Some(w@),
                        None => None,
                    },
                ),
            ),
            r matches Some(e) ==> reads_as(old(self).tokens@, old(self).index as int, final(self).index as int, e),
            r is None ==> forall|e: Expr|
                !reads_as(old(self).tokens@, old(self).index as int, final(self).index as int, e),
    {
        let first = self.index;
        let mut depth: usize = 0;
        let ghost stops = until_stops(
            stop,
            match extra {
                Some(w) => Some(w@),
                None => None,
            },
        );
        while !self.check(TokenKind::Eof)
            invariant
                self.wf(),
                self.tokens@ == old(self).tokens@,
                first == old(self).index,
                self.index >= first,
                depth == depth_at(self.tokens@, first as int, self.index as int),
                depth <= self.index - first,
                forall|j: int|
                    first <= j < self.index ==> (#[trigger] self.tokens@[j]).kind_spec() != TokenKind::Eof
                        && !(depth_at(self.tokens@, first as int, j) == 0 && stops(self.tokens@[j])),
                stops == until_stops(
                    stop,
                    match extra {
                        Some(w) => Some(w@),
                        None => None,
                    },
                ),
            ensures
                self.wf(),
                self.tokens@ == old(self).tokens@,
                self.index >= first,
                depth == depth_at(self.tokens@, first as int, self.index as int),
                forall|j: int|
                    first <= j < self.index ==> (#[trigger] self.tokens@[j]).kind_spec() != TokenKind::Eof
                        && !(depth_at(self.tokens@, first as int, j) == 0 && stops(self.tokens@[j])),
                self.current().kind_spec() == TokenKind::Eof || (depth == 0 && stops(self.current())),
            decreases self.remaining(),
        {
            if depth == 0 {
                let stop_here = match extra {
                    Some(word) => self.check_ident(word) || (stop != TokenKind::Eof && self.check(
                        stop,
                    )),
                    None => self.check(stop),
                };
                assert(stop_here == stops(self.tokens@[self.index as int]));
                if stop_here {
                    break;
                }
            }
            let ghost at = self.index as int;
            let token = self.advance();
            let k = token.kind();
            if k == TokenKind::LBracket || k == TokenKind::LParen {
                if depth < usize::MAX {
                    depth = depth + 1;
                }
            } else if k == TokenKind::RBracket || k == TokenKind::RParen {
                if depth > 0 {
                    depth = depth - 1;
                }
            }
        }
        self.finish_expr(first)
    }

    /// Like `parse_expr_until`, stopping also at a `]` (for chord pitch lists).
    fn parse_expr_until_list_item(&mut self) -> (r: Option<Expr>)
        requires
            old(self).wf(),
        ensures
            old(self).moved(*final(self)),
            r is Some ==> final(self).index > old(self).index,
            scanned_to(
                old(self).tokens@,
                old(self).index as int,
                final(self).index as int,
                |t: Token| t.kind_spec() == TokenKind::Comma || t.kind_spec() == TokenKind::RBracket,
            ),
            r matches Some(e) ==> reads_as(old(self).tokens@, old(self).index as int, final(self).index as int, e),
            r is None ==> forall|e: Expr|
                !reads_as(old(self).tokens@, old(self).index as int, final(self).index as int, e),
    {
        let first = self.index;
        let mut depth: usize = 0;
        let ghost stops = |t: Token| t.kind_spec() == TokenKind::Comma || t.kind_spec() == TokenKind::RBracket;
        while !self.check(TokenKind::Eof)
            invariant
                self.wf(),
                self.tokens@ == old(self).tokens@,
                first == old(self).index,
                self.index >= first,
                depth == depth_at(self.tokens@, first as int, self.index as int),
                depth <= self.index - first,
                forall|j: int|
                    first <= j < self.index ==> (#[trigger] self.tokens@[j]).kind_spec() != TokenKind::Eof
                        && !(depth_at(self.tokens@, first as int, j) == 0 && stops(self.tokens@[j])),
                stops == |t: Token| t.kind_spec() == TokenKind::Comma || t.kind_spec() == TokenKind::RBracket,
            ensures
                self.wf(),
                self.tokens@ == old(self).tokens@,
                self.index >= first,
                depth == depth_at(self.tokens@, first as int, self.index as int),
                forall|j: int|
                    first <= j < self.index ==> (#[trigger] self.tokens@[j]).kind_spec() != TokenKind::Eof
                        && !(depth_at(self.tokens@, first as int, j) == 0 && stops(self.tokens@[j])),
                self.current().kind_spec() == TokenKind::Eof || (depth == 0 && stops(self.current())),
            decreases self.remaining(),
        {
            if depth == 0 && (self.check(TokenKind::Comma) || self.check(TokenKind::RBracket)) {
                break;
            }
            let token = self.advance();
            let k = token.kind();
            if k == TokenKind::LBracket || k == TokenKind::LParen {
                if depth < usize::MAX {
                    depth = depth + 1;
                }
            } else if k == TokenKind::RBracket || k == TokenKind::RParen {
                if depth > 0 {
                    depth = depth - 1;
                }
            }
        }
        self.finish_expr(first)
    }

    fn parse_expr_until_stmt_end(&mut self) -> (r: Option<Expr>)
        requires
            old(self).wf(),
        ensures
            old(self).moved(*final(self)),
            r is Some ==> final(self).index > old(self).index,
            scanned_to(
                old(self).tokens@,
                old(self).index as int,
                final(self).index as int,
                |t: Token| t.kind_spec() == TokenKind::RBrace || statement_word_spec(t.text_spec()),
            ),
            r matches Some(e) ==> reads_as(old(self).tokens@, old(self).index as int, final(self).index as int, e),
            r is None ==> forall|e: Expr|
                !reads_as(old(self).tokens@, old(self).index as int, final(self).index as int, e),
    {
        let first = self.index;
        let mut depth: usize = 0;
        let ghost stops = |t: Token| t.kind_spec() == TokenKind::RBrace || statement_word_spec(t.text_spec());
        while !self.check(TokenKind::Eof)
            invariant
                self.wf(),
                self.tokens@ == old(self).tokens@,
                first == old(self).index,
                self.index >= first,
                depth == depth_at(self.tokens@, first as int, self.index as int),
                depth <= self.index - first,
                forall|j: int|
                    first <= j < self.index ==> (#[trigger] self.tokens@[j]).kind_spec() != TokenKind::Eof
                        && !(depth_at(self.tokens@, first as int, j) == 0 && stops(self.tokens@[j])),
                stops == |t: Token| t.kind_spec() == TokenKind::RBrace || statement_word_spec(t.text_spec()),
            ensures
                self.wf(),
                self.tokens@ == old(self).tokens@,
                self.index >= first,
                depth == depth_at(self.tokens@, first as int, self.index as int),
                forall|j: int|
                    first <= j < self.index ==> (#[trigger] self.tokens@[j]).kind_spec() != TokenKind::Eof
                        && !(depth_at(self.tokens@, first as int, j) == 0 && stops(self.tokens@[j])),
                self.current().kind_spec() == TokenKind::Eof || (depth == 0 && stops(self.current())),
            decreases self.remaining(),
        {
            if depth == 0 && (self.check(TokenKind::RBrace) || self.current_starts_statement()) {
                break;
            }
            let token = self.advance();
            let k = token.kind();
            if k == TokenKind::LBracket || k == TokenKind::LParen {
                if depth < usize::MAX {
                    depth = depth + 1;
                }
            } else if k == TokenKind::RBracket || k == TokenKind::RParen {
                if depth > 0 {
                    depth = depth - 1;
                }
            }
        }
        self.finish_expr(first)
    }

    /// Reads the tokens from `first` to the current one as an expression, or reports one.
    fn finish_expr(&mut self, first: usize) -> (r: Option<Expr>)
        requires
            old(self).wf(),
            first <= old(self).index,
        ensures
            old(self).moved(*final(self)),
            final(self).index == old(self).index,
            r is Some ==> first < old(self).index,
            r matches Some(e) ==> reads_as(old(self).tokens@, first as int, old(self).index as int, e),
            r is None ==> forall|e: Expr|
                !reads_as(old(self).tokens@, first as int, old(self).index as int, e),
            r is None && first < old(self).index ==> final(self).diagnostics@.len()
                == old(self).diagnostics@.len() + 1,
    {
        let hi = self.index;
        match parse_expr_tokens(&self.tokens, first, hi) {
            Some(e) => Some(e),
            None => {
                if first < hi {
                    let token = self.tokens[first].duplicate();
                    self.push_token_diagnostic("ML_PARSE_EXPR", "expected expression", &token);
                }
                None
            },
        }
    }

    fn parse_named_chord_head(&mut self) -> (r: Option<(Expr, String)>)
        requires
            old(self).wf(),
        ensures
            old(self).moved(*final(self)),
            scanned_to(
                old(self).tokens@,
                old(self).index as int,
                final(self).index as int,
                |t: Token| t.kind_spec() == TokenKind::Comma,
            ),
            ({
                let lo = old(self).index as int;
                let hi = final(self).index as int;
                let ts = old(self).tokens@;
                &&& (r matches Some((root, q)) ==> hi - lo >= 2 && name_kind(ts[hi - 1].kind_spec())
                    && reads_as(ts, lo, hi - 1, root) && q@ == ts[hi - 1].text_spec())
                &&& (r is None ==> hi - lo < 2 || !name_kind(ts[hi - 1].kind_spec()) || forall|e: Expr|
                    !#[trigger] reads_as(ts, lo, hi - 1, e))
            }),
    {
        let first = self.index;
        let mut depth: usize = 0;
        let ghost stops = |t: Token| t.kind_spec() == TokenKind::Comma;
        while !self.check(TokenKind::Eof)
            invariant
                self.wf(),
                self.tokens@ == old(self).tokens@,
                first == old(self).index,
                self.index >= first,
                depth == depth_at(self.tokens@, first as int, self.index as int),
                depth <= self.index - first,
                forall|j: int|
                    first <= j < self.index ==> (#[trigger] self.tokens@[j]).kind_spec() != TokenKind::Eof
                        && !(depth_at(self.tokens@, first as int, j) == 0 && stops(self.tokens@[j])),
                stops == |t: Token| t.kind_spec() == TokenKind::Comma,
            ensures
                self.wf(),
                self.tokens@ == old(self).tokens@,
                self.index >= first,
                depth == depth_at(self.tokens@, first as int, self.index as int),
                forall|j: int|
                    first <= j < self.index ==> (#[trigger] self.tokens@[j]).kind_spec() != TokenKind::Eof
                        && !(depth_at(self.tokens@, first as int, j) == 0 && stops(self.tokens@[j])),
                self.current().kind_spec() == TokenKind::Eof || (depth == 0 && stops(self.current())),
            decreases self.remaining(),
        {
            if depth == 0 && self.check(TokenKind::Comma) {
                break;
            }
            let token = self.advance();
            let k = token.kind();
            if k == TokenKind::LBracket || k == TokenKind::LParen {
                if depth < usize::MAX {
                    depth = depth + 1;
                }
            } else if k == TokenKind::RBracket || k == TokenKind::RParen {
                if depth > 0 {
                    depth = depth - 1;
                }
            }
        }
        let hi = self.index;
        if hi - first < 2 {
            if first < hi {
                let token = self.tokens[first].duplicate();
                self.push_token_diagnostic(
                    "ML_PARSE_CHORD",
                    "expected chord root and quality",
                    &token,
                );
            }
            return None;
        }
        let quality = self.tokens[hi - 1].duplicate();
        let qk = quality.kind();
        if !(is_ident_like(qk) || qk == TokenKind::Pitch || qk == TokenKind::Interval) {
            self.push_token_diagnostic("ML_PARSE_NAME", "expected chord quality", &quality);
            return None;
        }
        match parse_expr_tokens(&self.tokens, first, hi - 1) {
            Some(root) => Some((root, owned(quality.text()))),
            None => {
                let token = self.tokens[first].duplicate();
                self.push_token_diagnostic(
                    "ML_PARSE_EXPR",
                    "expected chord root expression",
                    &token,
                );
                None
            },
        }
    }

    fn parse_progression_symbols(&mut self) -> (r: Option<Vec<String>>)
        requires
            old(self).wf(),
        ensures
            old(self).moved(*final(self)),
            r matches Some(v) ==> v@.len() > 0,
            ({
                let end = symbol_run_end(old(self).tokens@, old(self).index as int);
                &&& (r is Some <==> end > old(self).index && (old(self).tokens@[end].kind_spec()
                    == TokenKind::Comma || old(self).tokens@[end].kind_spec() == TokenKind::Eof))
                &&& (r matches Some(v) ==> final(self).index == end && v@.len() == end - old(self).index
                    && forall|k: int|
                    0 <= k < v@.len() ==> (#[trigger] v@[k])@ == old(self).tokens@[old(self).index
                        + k].text_spec())
            }),
    {
        let mut symbols: Vec<String> = Vec::new();
        let ghost i0 = self.index as int;
        while !self.check(TokenKind::Eof) && !self.check(TokenKind::Comma)
            invariant
                self.wf(),
                self.tokens@ == old(self).tokens@,
                self.index >= old(self).index,
                i0 == old(self).index,
                symbol_run_end(self.tokens@, i0) == symbol_run_end(self.tokens@, self.index as int),
                symbols@.len() == self.index - i0,
                forall|k: int|
                    0 <= k < symbols@.len() ==> (#[trigger] symbols@[k])@ == self.tokens@[i0 + k].text_spec(),
            decreases self.remaining(),
        {
            let token = self.advance();
            let k = token.kind();
            if is_ident_like(k) || k == TokenKind::Pitch || k == TokenKind::Interval || k
                == TokenKind::Duration {
                symbols.push(owned(token.text()));
            } else {
                self.push_token_diagnostic("ML_PARSE_NAME", "expected roman numeral", &token);
                return None;
            }
        }
        if symbols.len() == 0 {
            let token = self.peek().duplicate();
            self.push_token_diagnostic(
                "ML_PARSE_PROGRESSION",
                "expected at least one roman numeral",
                &token,
            );
            return None;
        }
        Some(symbols)
    }
}

/// The words at which a statement (or score metadata) starts.
pub open spec fn statement_word_spec(t: Seq<char>) -> bool {
    ||| t == "voice"@
    ||| t == "note"@
    ||| t == "rest"@
    ||| t == "degree"@
    ||| t == "pedal"@
    ||| t == "ostinato"@
    ||| t == "sequence"@
    ||| t == "transpose"@
    ||| t == "chord"@
    ||| t == "roman"@
    ||| t == "progression"@
    ||| t == "cadence"@
    ||| t == "modulate"@
    ||| t == "dynamic"@
    ||| t == "velocity"@
    ||| t == "articulation"@
    ||| t == "section"@
    ||| t == "ornament"@
    ||| t == "non_chord_tone"@
    ||| t == "tuning_system"@
    ||| t == "world_tradition"@
    ||| t == "historical_era"@
    ||| t == "harmonic_function"@
    ||| t == "for"@
    ||| t == "if"@
    ||| t == "let"@
    ||| t == "call"@
    ||| t == "override"@
    ||| t == "with"@
    ||| t == "title"@
    ||| t == "composer"@
    ||| t == "tempo"@
    ||| t == "meter"@
    ||| t == "key"@
    ||| t == "program"@
    ||| t == "instrument"@
    ||| t == "volume"@
    ||| t == "pan"@
}

fn statement_word(t: &str) -> (r: bool)
    ensures
        r == statement_word_spec(t@),
{
    str_eq(t, "voice") || str_eq(t, "note") || str_eq(t, "rest") || str_eq(t, "degree") || str_eq(
        t,
        "pedal",
    ) || str_eq(t, "ostinato") || str_eq(t, "sequence") || str_eq(t, "transpose") || str_eq(
        t,
        "chord",
    ) || str_eq(t, "roman") || str_eq(t, "progression") || str_eq(t, "cadence") || str_eq(
        t,
        "modulate",
    ) || str_eq(t, "dynamic") || str_eq(t, "velocity") || str_eq(t, "articulation") || str_eq(
        t,
        "section",
    ) || str_eq(t, "ornament") || str_eq(t, "non_chord_tone") || str_eq(t, "tuning_system")
        || str_eq(t, "world_tradition") || str_eq(t, "historical_era") || str_eq(
        t,
        "harmonic_function",
    ) || str_eq(t, "for") || str_eq(t, "if") || str_eq(t, "let") || str_eq(t, "call") || str_eq(
        t,
        "override",
    ) || str_eq(t, "with") || str_eq(t, "title") || str_eq(t, "composer") || str_eq(t, "tempo")
        || str_eq(t, "meter") || str_eq(t, "key") || str_eq(t, "program") || str_eq(
        t,
        "instrument",
    ) || str_eq(t, "volume") || str_eq(t, "pan")
}

/// The left name and right number of an `if name == number` condition.
fn if_parts(condition: &Expr) -> (r: (String, i32))
    ensures
        match condition.kind {
            ExprKind::Binary { op: BinaryOp::Eq, left, right } => match (left.kind, right.kind) {
                (ExprKind::Ident(name), ExprKind::Int(v)) => r.0@ == name@ && r.1 == v,
                _ => r.0@ == expr_source(*condition) && r.1 == 0,
            },
            _ => r.0@ == expr_source(*condition) && r.1 == 0,
        },
{
    match &condition.kind {
        ExprKind::Binary { op: BinaryOp::Eq, left, right } => match (&left.kind, &right.kind) {
            (ExprKind::Ident(name), ExprKind::Int(value)) => (name.clone(), *value),
            _ => (expr_to_source(condition), 0),
        },
        _ => (expr_to_source(condition), 0),
    }
}

/// Scanning from `first` stopped at `end`: at the final `Eof`, or at the first token outside
/// brackets (opened from `first` on) that `stops` accepts.
pub open spec fn scanned_to(tokens: Seq<Token>, first: int, end: int, stops: spec_fn(Token) -> bool) -> bool {
    &&& 0 <= first <= end < tokens.len()
    &&& (tokens[end].kind_spec() == TokenKind::Eof || (depth_at(tokens, first, end) == 0 && stops(
        tokens[end],
    )))
    &&& forall|j: int|
        first <= j < end ==> (#[trigger] tokens[j]).kind_spec() != TokenKind::Eof && !(depth_at(
            tokens,
            first,
            j,
        ) == 0 && stops(tokens[j]))
}

/// Where `parse_expr_until` stops: at the `stop` kind, or with a word at that word or at a
/// `stop` kind other than `Eof`.
pub open spec fn until_stops(stop: TokenKind, extra: Option<Seq<char>>) -> spec_fn(Token) -> bool {
    |t: Token|
        match extra {
            Some(w) => (ident_like(t.kind_spec()) && t.text_spec() == w) || (stop != TokenKind::Eof
                && t.kind_spec() == stop),
            None => t.kind_spec() == stop,
        }
}

/// The bpm that a `tempo` number gives: at least 1, kept to 16 bits.
pub open spec fn tempo_bpm(v: int) -> u16 {
    ((if v < 1 {
        1
    } else {
        v
    }) % 65536) as u16
}

/// The mode word of a `key` declaration at token `t`: `major` where the declaration ends there,
/// else the name the token holds.
pub open spec fn key_mode_of(t: Token) -> Option<Seq<char>> {
    if statement_word_spec(t.text_spec()) || t.kind_spec() == TokenKind::RBrace || t.kind_spec()
        == TokenKind::Eof {
        Some("major"@)
    } else if name_kind(t.kind_spec()) {
        Some(t.text_spec())
    } else {
        None
    }
}

/// The numerator and denominator of a meter written `a/b`, each a number up to 255.
pub open spec fn meter_parts(t: Seq<char>) -> Option<(int, int)> {
    match crate::text::split_once_spec(t, '/') {
        Some((a, b)) => match (
            crate::text::parse_int_spec(a, false, 0, 255),
            crate::text::parse_int_spec(b, false, 0, 255),
        ) {
            (Some(x), Some(y)) => Some((x, y)),
            _ => None,
        },
        None => None,
    }
}

/// A declaration's line, column and span are those of token `t`.
pub open spec fn placed_at(line: usize, column: usize, span: Span, t: Token) -> bool {
    line == t.span_spec().line && column == t.span_spec().column && span == t.span_spec()
}

/// A token that can stand in a progression: a name or a duration-like word such as `V/V`.
pub open spec fn progression_symbol(t: Token) -> bool {
    name_kind(t.kind_spec()) || t.kind_spec() == TokenKind::Duration
}

/// Where a run of progression symbols from `i` ends: at the first `,`, `Eof` or token that
/// is no symbol.
pub open spec fn symbol_run_end(tokens: Seq<Token>, i: int) -> int
    decreases tokens.len() - i,
{
    if i < 0 || i >= tokens.len() || tokens[i].kind_spec() == TokenKind::Eof || tokens[i].kind_spec()
        == TokenKind::Comma || !progression_symbol(tokens[i]) {
        i
    } else {
        symbol_run_end(tokens, i + 1)
    }
}

/// The words that start a statement inside a block.
pub open spec fn stmt_keyword(t: Seq<char>) -> bool {
    t == "voice"@ || t == "note"@ || t == "rest"@ || t == "degree"@ || t == "pedal"@ || t == "ostinato"@ || t == "sequence"@ || t == "transpose"@ || t == "chord"@ || t == "roman"@ || t == "progression"@ || t == "cadence"@ || t == "modulate"@ || t == "dynamic"@ || t == "velocity"@ || t == "articulation"@ || t == "section"@ || t == "ornament"@ || t == "non_chord_tone"@ || t == "tuning_system"@ || t == "world_tradition"@ || t == "historical_era"@ || t == "harmonic_function"@ || t == "for"@ || t == "if"@ || t == "let"@ || t == "call"@ || t == "override"@ || t == "with"@
}

/// A `velocity` value kept to `0..=127`.
pub open spec fn velocity_clamp(v: int) -> u8 {
    (if v < 0 {
        0
    } else if v > 127 {
        127
    } else {
        v
    }) as u8
}

/// Where a statement's trailing expression stops: at a `}` or a word that starts a statement.
pub open spec fn stmt_end_stops() -> spec_fn(Token) -> bool {
    |t: Token| t.kind_spec() == TokenKind::RBrace || statement_word_spec(t.text_spec())
}

/// A scan from `first` under the same stops ends at one place only.
proof fn lemma_scan_unique(tokens: Seq<Token>, first: int, e1: int, e2: int, stops: spec_fn(Token) -> bool)
    requires
        scanned_to(tokens, first, e1, stops),
        scanned_to(tokens, first, e2, stops),
    ensures
        e1 == e2,
{
    if e1 < e2 {
        assert(tokens[e1].kind_spec() != TokenKind::Eof);
    } else if e2 < e1 {
        assert(tokens[e2].kind_spec() != TokenKind::Eof);
    }
}

/// A token that is the word `w`.
pub open spec fn word_token(t: Token, w: Seq<char>) -> bool {
    ident_like(t.kind_spec()) && t.text_spec() == w
}

/// The integer that a number token spells.
pub open spec fn number_token_value(t: Token) -> Option<int> {
    if t.kind_spec() == TokenKind::Number {
        crate::text::parse_int_spec(t.text_spec(), true, i32::MIN as int, i32::MAX as int)
    } else {
        None
    }
}

/// The head of a section at `i`: the word, a label, then its block.
pub open spec fn section_head(tokens: Seq<Token>, i: int, s: SectionStmt) -> bool {
    &&& name_kind(tokens[i + 1].kind_spec())
    &&& s.label@ == tokens[i + 1].text_spec()
    &&& tokens[i + 2].kind_spec() == TokenKind::LBrace
    &&& placed_at(s.line, s.column, s.span, tokens[i])
}

/// The head of a style block at `i`: `with style`, the style's name, then its block.
pub open spec fn with_style_head(tokens: Seq<Token>, i: int, w: WithStyleStmt) -> bool {
    &&& word_token(tokens[i + 1], "style"@)
    &&& name_kind(tokens[i + 2].kind_spec())
    &&& w.style@ == tokens[i + 2].text_spec()
    &&& tokens[i + 3].kind_spec() == TokenKind::LBrace
    &&& placed_at(w.line, w.column, w.span, tokens[i])
}

/// The head of an override at `i`: the rule, `allow`, an optional `reason` and its string,
/// then its block.
pub open spec fn override_head(tokens: Seq<Token>, i: int, o: OverrideStmt) -> bool {
    &&& name_kind(tokens[i + 1].kind_spec())
    &&& o.rule@ == tokens[i + 1].text_spec()
    &&& word_token(tokens[i + 2], "allow"@)
    &&& if word_token(tokens[i + 3], "reason"@) {
        &&& tokens[i + 4].kind_spec() == TokenKind::String
        &&& o.reason matches Some(r) && r@ == tokens[i + 4].text_spec()
        &&& tokens[i + 5].kind_spec() == TokenKind::LBrace
    } else {
        o.reason is None && tokens[i + 3].kind_spec() == TokenKind::LBrace
    }
    &&& placed_at(o.line, o.column, o.span, tokens[i])
}

/// The head of a `for` at `i`: its variable, `in`, the first value, `..`, the end, then its
/// block.
pub open spec fn for_head(tokens: Seq<Token>, i: int, f: ForStmt) -> bool {
    &&& name_kind(tokens[i + 1].kind_spec())
    &&& f.variable@ == tokens[i + 1].text_spec()
    &&& word_token(tokens[i + 2], "in"@)
    &&& number_token_value(tokens[i + 3]) == Some(f.start as int)
    &&& tokens[i + 4].kind_spec() == TokenKind::DotDot
    &&& number_token_value(tokens[i + 5]) == Some(f.end as int)
    &&& tokens[i + 6].kind_spec() == TokenKind::LBrace
    &&& placed_at(f.line, f.column, f.span, tokens[i])
}

/// The head of an `if` at `i`: its condition, read up to `{`, then its block.
pub open spec fn if_head(tokens: Seq<Token>, i: int, c: IfStmt) -> bool {
    exists|m: int|
        #[trigger] scanned_to(tokens, i + 1, m, until_stops(TokenKind::LBrace, None)) && reads_as(
            tokens,
            i + 1,
            m,
            c.condition,
        ) && tokens[m].kind_spec() == TokenKind::LBrace && placed_at(c.line, c.column, c.span, tokens[i])
}

/// Where a chord's list item ends: at a `,` or a `]` outside brackets.
pub open spec fn list_item_stops() -> spec_fn(Token) -> bool {
    |t: Token| t.kind_spec() == TokenKind::Comma || t.kind_spec() == TokenKind::RBracket
}

/// The tokens from `p` to `q` read as the list items `items`, each one up to a `,` or a `]`
/// and a `,` after it skipped, no item starting at a `]` or at the end.
pub open spec fn items_read(tokens: Seq<Token>, p: int, q: int, items: Seq<Expr>) -> bool
    decreases items.len(),
{
    if items.len() == 0 {
        q == p
    } else {
        exists|m1: int, m2: int|
            #![trigger scanned_to(tokens, m1, m2, list_item_stops())]
            items_read(tokens, p, m1, items.drop_last()) && tokens[m1].kind_spec() != TokenKind::RBracket
                && tokens[m1].kind_spec() != TokenKind::Eof && scanned_to(tokens, m1, m2, list_item_stops())
                && reads_as(tokens, m1, m2, items.last()) && q == if tokens[m2].kind_spec()
                == TokenKind::Comma {
                m2 + 1
            } else {
                m2
            }
    }
}

/// The tokens from `i` to `end` read as the chord `c` written as a list: the word `chord`
/// at `i`, `[`, its pitch items, `]`, `,` and a duration up to the end of the statement.
pub open spec fn chord_list_at(tokens: Seq<Token>, i: int, end: int, c: ChordStmt) -> bool {
    &&& tokens[i + 1].kind_spec() == TokenKind::LBracket
    &&& exists|q: int|
        #[trigger] items_read(tokens, i + 2, q, c.pitch_exprs@) && tokens[q].kind_spec() == TokenKind::RBracket
            && tokens[q + 1].kind_spec() == TokenKind::Comma && scanned_to(tokens, q + 2, end, stmt_end_stops())
            && reads_as(tokens, q + 2, end, c.duration_expr)
    &&& c.root_expr is None
    &&& c.quality is None
    &&& placed_at(c.line, c.column, c.span, tokens[i])
}

/// The tokens from `i` to `end` read as the binding `l`: the word `let` at `i`, a name, `=`,
/// and a value expression up to the end of the statement.
pub open spec fn let_at(tokens: Seq<Token>, i: int, end: int, l: LetStmt) -> bool {
    &&& name_kind(tokens[i + 1].kind_spec())
    &&& l.name@ == tokens[i + 1].text_spec()
    &&& tokens[i + 2].kind_spec() == TokenKind::Eq
    &&& scanned_to(tokens, i + 3, end, stmt_end_stops())
    &&& reads_as(tokens, i + 3, end, l.value_expr)
    &&& placed_at(l.line, l.column, l.span, tokens[i])
}

/// The tokens from `i` to `end` read as the note `n`: the word `note` at `i`, a pitch
/// expression up to a `,`, and a duration expression up to the end of the statement.
pub open spec fn note_at(tokens: Seq<Token>, i: int, end: int, n: NoteStmt) -> bool {
    exists|m: int|
        #[trigger] scanned_to(tokens, i + 1, m, until_stops(TokenKind::Comma, None)) && {
            &&& reads_as(tokens, i + 1, m, n.pitch_expr)
            &&& tokens[m].kind_spec() == TokenKind::Comma
            &&& scanned_to(tokens, m + 1, end, stmt_end_stops())
            &&& reads_as(tokens, m + 1, end, n.duration_expr)
            &&& placed_at(n.line, n.column, n.span, tokens[i])
        }
}

/// The words of the statements whose reading is stated differ from the words checked before them.
proof fn lemma_named_statement_words_differ()
    ensures
        "voice"@ != "section"@,
        "note"@ != "section"@,
        "rest"@ != "section"@,
        "degree"@ != "section"@,
        "pedal"@ != "section"@,
        "ostinato"@ != "section"@,
        "sequence"@ != "section"@,
        "transpose"@ != "section"@,
        "chord"@ != "section"@,
        "roman"@ != "section"@,
        "progression"@ != "section"@,
        "cadence"@ != "section"@,
        "modulate"@ != "section"@,
        "dynamic"@ != "section"@,
        "velocity"@ != "section"@,
        "articulation"@ != "section"@,
        "voice"@ != "for"@,
        "note"@ != "for"@,
        "rest"@ != "for"@,
        "degree"@ != "for"@,
        "pedal"@ != "for"@,
        "ostinato"@ != "for"@,
        "sequence"@ != "for"@,
        "transpose"@ != "for"@,
        "chord"@ != "for"@,
        "roman"@ != "for"@,
        "progression"@ != "for"@,
        "cadence"@ != "for"@,
        "modulate"@ != "for"@,
        "dynamic"@ != "for"@,
        "velocity"@ != "for"@,
        "articulation"@ != "for"@,
        "section"@ != "for"@,
        "ornament"@ != "for"@,
        "non_chord_tone"@ != "for"@,
        "tuning_system"@ != "for"@,
        "world_tradition"@ != "for"@,
        "historical_era"@ != "for"@,
        "harmonic_function"@ != "for"@,
        "voice"@ != "if"@,
        "note"@ != "if"@,
        "rest"@ != "if"@,
        "degree"@ != "if"@,
        "pedal"@ != "if"@,
        "ostinato"@ != "if"@,
        "sequence"@ != "if"@,
        "transpose"@ != "if"@,
        "chord"@ != "if"@,
        "roman"@ != "if"@,
        "progression"@ != "if"@,
        "cadence"@ != "if"@,
        "modulate"@ != "if"@,
        "dynamic"@ != "if"@,
        "velocity"@ != "if"@,
        "articulation"@ != "if"@,
        "section"@ != "if"@,
        "ornament"@ != "if"@,
        "non_chord_tone"@ != "if"@,
        "tuning_system"@ != "if"@,
        "world_tradition"@ != "if"@,
        "historical_era"@ != "if"@,
        "harmonic_function"@ != "if"@,
        "for"@ != "if"@,
        "voice"@ != "override"@,
        "note"@ != "override"@,
        "rest"@ != "override"@,
        "degree"@ != "override"@,
        "pedal"@ != "override"@,
        "ostinato"@ != "override"@,
        "sequence"@ != "override"@,
        "transpose"@ != "override"@,
        "chord"@ != "override"@,
        "roman"@ != "override"@,
        "progression"@ != "override"@,
        "cadence"@ != "override"@,
        "modulate"@ != "override"@,
        "dynamic"@ != "override"@,
        "velocity"@ != "override"@,
        "articulation"@ != "override"@,
        "section"@ != "override"@,
        "ornament"@ != "override"@,
        "non_chord_tone"@ != "override"@,
        "tuning_system"@ != "override"@,
        "world_tradition"@ != "override"@,
        "historical_era"@ != "override"@,
        "harmonic_function"@ != "override"@,
        "for"@ != "override"@,
        "if"@ != "override"@,
        "let"@ != "override"@,
        "call"@ != "override"@,
        "voice"@ != "with"@,
        "note"@ != "with"@,
        "rest"@ != "with"@,
        "degree"@ != "with"@,
        "pedal"@ != "with"@,
        "ostinato"@ != "with"@,
        "sequence"@ != "with"@,
        "transpose"@ != "with"@,
        "chord"@ != "with"@,
        "roman"@ != "with"@,
        "progression"@ != "with"@,
        "cadence"@ != "with"@,
        "modulate"@ != "with"@,
        "dynamic"@ != "with"@,
        "velocity"@ != "with"@,
        "articulation"@ != "with"@,
        "section"@ != "with"@,
        "ornament"@ != "with"@,
        "non_chord_tone"@ != "with"@,
        "tuning_system"@ != "with"@,
        "world_tradition"@ != "with"@,
        "historical_era"@ != "with"@,
        "harmonic_function"@ != "with"@,
        "for"@ != "with"@,
        "if"@ != "with"@,
        "let"@ != "with"@,
        "call"@ != "with"@,
        "override"@ != "with"@,
        "voice"@ != "chord"@,
        "note"@ != "chord"@,
        "rest"@ != "chord"@,
        "degree"@ != "chord"@,
        "pedal"@ != "chord"@,
        "ostinato"@ != "chord"@,
        "sequence"@ != "chord"@,
        "transpose"@ != "chord"@,
        "voice"@ != "let"@,
        "note"@ != "let"@,
        "rest"@ != "let"@,
        "degree"@ != "let"@,
        "pedal"@ != "let"@,
        "ostinato"@ != "let"@,
        "sequence"@ != "let"@,
        "transpose"@ != "let"@,
        "chord"@ != "let"@,
        "roman"@ != "let"@,
        "progression"@ != "let"@,
        "cadence"@ != "let"@,
        "modulate"@ != "let"@,
        "dynamic"@ != "let"@,
        "velocity"@ != "let"@,
        "articulation"@ != "let"@,
        "section"@ != "let"@,
        "ornament"@ != "let"@,
        "non_chord_tone"@ != "let"@,
        "tuning_system"@ != "let"@,
        "world_tradition"@ != "let"@,
        "historical_era"@ != "let"@,
        "harmonic_function"@ != "let"@,
        "for"@ != "let"@,
        "if"@ != "let"@,
        "voice"@ != "dynamic"@,
        "note"@ != "dynamic"@,
        "rest"@ != "dynamic"@,
        "degree"@ != "dynamic"@,
        "pedal"@ != "dynamic"@,
        "ostinato"@ != "dynamic"@,
        "sequence"@ != "dynamic"@,
        "transpose"@ != "dynamic"@,
        "chord"@ != "dynamic"@,
        "roman"@ != "dynamic"@,
        "progression"@ != "dynamic"@,
        "cadence"@ != "dynamic"@,
        "modulate"@ != "dynamic"@,
        "voice"@ != "articulation"@,
        "note"@ != "articulation"@,
        "rest"@ != "articulation"@,
        "degree"@ != "articulation"@,
        "pedal"@ != "articulation"@,
        "ostinato"@ != "articulation"@,
        "sequence"@ != "articulation"@,
        "transpose"@ != "articulation"@,
        "chord"@ != "articulation"@,
        "roman"@ != "articulation"@,
        "progression"@ != "articulation"@,
        "cadence"@ != "articulation"@,
        "modulate"@ != "articulation"@,
        "dynamic"@ != "articulation"@,
        "velocity"@ != "articulation"@,
        "voice"@ != "call"@,
        "note"@ != "call"@,
        "rest"@ != "call"@,
        "degree"@ != "call"@,
        "pedal"@ != "call"@,
        "ostinato"@ != "call"@,
        "sequence"@ != "call"@,
        "transpose"@ != "call"@,
        "chord"@ != "call"@,
        "roman"@ != "call"@,
        "progression"@ != "call"@,
        "cadence"@ != "call"@,
        "modulate"@ != "call"@,
        "dynamic"@ != "call"@,
        "velocity"@ != "call"@,
        "articulation"@ != "call"@,
        "section"@ != "call"@,
        "ornament"@ != "call"@,
        "non_chord_tone"@ != "call"@,
        "tuning_system"@ != "call"@,
        "world_tradition"@ != "call"@,
        "historical_era"@ != "call"@,
        "harmonic_function"@ != "call"@,
        "for"@ != "call"@,
        "if"@ != "call"@,
        "let"@ != "call"@,
{
    reveal_strlit("voice");
    reveal_strlit("dynamic");
    assert("voice"@[0] != "dynamic"@[0]);
    reveal_strlit("note");
    assert("note"@[0] != "dynamic"@[0]);
    reveal_strlit("rest");
    assert("rest"@[0] != "dynamic"@[0]);
    reveal_strlit("degree");
    assert("degree"@[1] != "dynamic"@[1]);
    reveal_strlit("pedal");
    assert("pedal"@[0] != "dynamic"@[0]);
    reveal_strlit("ostinato");
    assert("ostinato"@[0] != "dynamic"@[0]);
    reveal_strlit("sequence");
    assert("sequence"@[0] != "dynamic"@[0]);
    reveal_strlit("transpose");
    assert("transpose"@[0] != "dynamic"@[0]);
    reveal_strlit("chord");
    assert("chord"@[0] != "dynamic"@[0]);
    reveal_strlit("roman");
    assert("roman"@[0] != "dynamic"@[0]);
    reveal_strlit("progression");
    assert("progression"@[0] != "dynamic"@[0]);
    reveal_strlit("cadence");
    assert("cadence"@[0] != "dynamic"@[0]);
    reveal_strlit("modulate");
    assert("modulate"@[0] != "dynamic"@[0]);
    reveal_strlit("articulation");
    assert("voice"@[0] != "articulation"@[0]);
    assert("note"@[0] != "articulation"@[0]);
    assert("rest"@[0] != "articulation"@[0]);
    assert("degree"@[0] != "articulation"@[0]);
    assert("pedal"@[0] != "articulation"@[0]);
    assert("ostinato"@[0] != "articulation"@[0]);
    assert("sequence"@[0] != "articulation"@[0]);
    assert("transpose"@[0] != "articulation"@[0]);
    assert("chord"@[0] != "articulation"@[0]);
    assert("roman"@[0] != "articulation"@[0]);
    assert("progression"@[0] != "articulation"@[0]);
    assert("cadence"@[0] != "articulation"@[0]);
    assert("modulate"@[0] != "articulation"@[0]);
    assert("dynamic"@[0] != "articulation"@[0]);
    reveal_strlit("velocity");
    assert("velocity"@[0] != "articulation"@[0]);
    reveal_strlit("call");
    assert("voice"@[0] != "call"@[0]);
    assert("note"@[0] != "call"@[0]);
    assert("rest"@[0] != "call"@[0]);
    assert("degree"@[0] != "call"@[0]);
    assert("pedal"@[0] != "call"@[0]);
    assert("ostinato"@[0] != "call"@[0]);
    assert("sequence"@[0] != "call"@[0]);
    assert("transpose"@[0] != "call"@[0]);
    assert("chord"@[1] != "call"@[1]);
    assert("roman"@[0] != "call"@[0]);
    assert("progression"@[0] != "call"@[0]);
    assert("cadence"@[2] != "call"@[2]);
    assert("modulate"@[0] != "call"@[0]);
    assert("dynamic"@[0] != "call"@[0]);
    assert("velocity"@[0] != "call"@[0]);
    assert("articulation"@[0] != "call"@[0]);
    reveal_strlit("section");
    assert("section"@[0] != "call"@[0]);
    reveal_strlit("ornament");
    assert("ornament"@[0] != "call"@[0]);
    reveal_strlit("non_chord_tone");
    assert("non_chord_tone"@[0] != "call"@[0]);
    reveal_strlit("tuning_system");
    assert("tuning_system"@[0] != "call"@[0]);
    reveal_strlit("world_tradition");
    assert("world_tradition"@[0] != "call"@[0]);
    reveal_strlit("historical_era");
    assert("historical_era"@[0] != "call"@[0]);
    reveal_strlit("harmonic_function");
    assert("harmonic_function"@[0] != "call"@[0]);
    reveal_strlit("for");
    assert("for"@[0] != "call"@[0]);
    reveal_strlit("if");
    assert("if"@[0] != "call"@[0]);
    reveal_strlit("let");
    assert("let"@[0] != "call"@[0]);
    reveal_strlit("let");
    assert("voice"@[0] != "let"@[0]);
    assert("note"@[0] != "let"@[0]);
    assert("rest"@[0] != "let"@[0]);
    assert("degree"@[0] != "let"@[0]);
    assert("pedal"@[0] != "let"@[0]);
    assert("ostinato"@[0] != "let"@[0]);
    assert("sequence"@[0] != "let"@[0]);
    assert("transpose"@[0] != "let"@[0]);
    assert("chord"@[0] != "let"@[0]);
    assert("roman"@[0] != "let"@[0]);
    assert("progression"@[0] != "let"@[0]);
    assert("cadence"@[0] != "let"@[0]);
    assert("modulate"@[0] != "let"@[0]);
    assert("dynamic"@[0] != "let"@[0]);
    assert("velocity"@[0] != "let"@[0]);
    assert("articulation"@[0] != "let"@[0]);
    assert("section"@[0] != "let"@[0]);
    assert("ornament"@[0] != "let"@[0]);
    assert("non_chord_tone"@[0] != "let"@[0]);
    assert("tuning_system"@[0] != "let"@[0]);
    assert("world_tradition"@[0] != "let"@[0]);
    assert("historical_era"@[0] != "let"@[0]);
    assert("harmonic_function"@[0] != "let"@[0]);
    assert("for"@[0] != "let"@[0]);
    assert("if"@[0] != "let"@[0]);
    reveal_strlit("chord");
    assert("voice"@[0] != "chord"@[0]);
    assert("note"@[0] != "chord"@[0]);
    assert("rest"@[0] != "chord"@[0]);
    assert("degree"@[0] != "chord"@[0]);
    assert("pedal"@[0] != "chord"@[0]);
    assert("ostinato"@[0] != "chord"@[0]);
    assert("sequence"@[0] != "chord"@[0]);
    assert("transpose"@[0] != "chord"@[0]);
    assert("voice"@[0] != "section"@[0]);
    assert("note"@[0] != "section"@[0]);
    assert("rest"@[0] != "section"@[0]);
    assert("degree"@[0] != "section"@[0]);
    assert("pedal"@[0] != "section"@[0]);
    assert("ostinato"@[0] != "section"@[0]);
    assert("sequence"@[2] != "section"@[2]);
    assert("transpose"@[0] != "section"@[0]);
    assert("chord"@[0] != "section"@[0]);
    assert("roman"@[0] != "section"@[0]);
    assert("progression"@[0] != "section"@[0]);
    assert("cadence"@[0] != "section"@[0]);
    assert("modulate"@[0] != "section"@[0]);
    assert("dynamic"@[0] != "section"@[0]);
    assert("velocity"@[0] != "section"@[0]);
    assert("articulation"@[0] != "section"@[0]);
    assert("voice"@[0] != "for"@[0]);
    assert("note"@[0] != "for"@[0]);
    assert("rest"@[0] != "for"@[0]);
    assert("degree"@[0] != "for"@[0]);
    assert("pedal"@[0] != "for"@[0]);
    assert("ostinato"@[0] != "for"@[0]);
    assert("sequence"@[0] != "for"@[0]);
    assert("transpose"@[0] != "for"@[0]);
    assert("chord"@[0] != "for"@[0]);
    assert("roman"@[0] != "for"@[0]);
    assert("progression"@[0] != "for"@[0]);
    assert("cadence"@[0] != "for"@[0]);
    assert("modulate"@[0] != "for"@[0]);
    assert("dynamic"@[0] != "for"@[0]);
    assert("velocity"@[0] != "for"@[0]);
    assert("articulation"@[0] != "for"@[0]);
    assert("section"@[0] != "for"@[0]);
    assert("ornament"@[0] != "for"@[0]);
    assert("non_chord_tone"@[0] != "for"@[0]);
    assert("tuning_system"@[0] != "for"@[0]);
    assert("world_tradition"@[0] != "for"@[0]);
    assert("historical_era"@[0] != "for"@[0]);
    assert("harmonic_function"@[0] != "for"@[0]);
    assert("voice"@[0] != "if"@[0]);
    assert("note"@[0] != "if"@[0]);
    assert("rest"@[0] != "if"@[0]);
    assert("degree"@[0] != "if"@[0]);
    assert("pedal"@[0] != "if"@[0]);
    assert("ostinato"@[0] != "if"@[0]);
    assert("sequence"@[0] != "if"@[0]);
    assert("transpose"@[0] != "if"@[0]);
    assert("chord"@[0] != "if"@[0]);
    assert("roman"@[0] != "if"@[0]);
    assert("progression"@[0] != "if"@[0]);
    assert("cadence"@[0] != "if"@[0]);
    assert("modulate"@[0] != "if"@[0]);
    assert("dynamic"@[0] != "if"@[0]);
    assert("velocity"@[0] != "if"@[0]);
    assert("articulation"@[0] != "if"@[0]);
    assert("section"@[0] != "if"@[0]);
    assert("ornament"@[0] != "if"@[0]);
    assert("non_chord_tone"@[0] != "if"@[0]);
    assert("tuning_system"@[0] != "if"@[0]);
    assert("world_tradition"@[0] != "if"@[0]);
    assert("historical_era"@[0] != "if"@[0]);
    assert("harmonic_function"@[0] != "if"@[0]);
    assert("for"@[0] != "if"@[0]);
    reveal_strlit("override");
    assert("voice"@[0] != "override"@[0]);
    assert("note"@[0] != "override"@[0]);
    assert("rest"@[0] != "override"@[0]);
    assert("degree"@[0] != "override"@[0]);
    assert("pedal"@[0] != "override"@[0]);
    assert("ostinato"@[1] != "override"@[1]);
    assert("sequence"@[0] != "override"@[0]);
    assert("transpose"@[0] != "override"@[0]);
    assert("chord"@[0] != "override"@[0]);
    assert("roman"@[0] != "override"@[0]);
    assert("progression"@[0] != "override"@[0]);
    assert("cadence"@[0] != "override"@[0]);
    assert("modulate"@[0] != "override"@[0]);
    assert("dynamic"@[0] != "override"@[0]);
    assert("velocity"@[0] != "override"@[0]);
    assert("articulation"@[0] != "override"@[0]);
    assert("section"@[0] != "override"@[0]);
    assert("ornament"@[1] != "override"@[1]);
    assert("non_chord_tone"@[0] != "override"@[0]);
    assert("tuning_system"@[0] != "override"@[0]);
    assert("world_tradition"@[0] != "override"@[0]);
    assert("historical_era"@[0] != "override"@[0]);
    assert("harmonic_function"@[0] != "override"@[0]);
    assert("for"@[0] != "override"@[0]);
    assert("if"@[0] != "override"@[0]);
    assert("let"@[0] != "override"@[0]);
    assert("call"@[0] != "override"@[0]);
    reveal_strlit("with");
    assert("voice"@[0] != "with"@[0]);
    assert("note"@[0] != "with"@[0]);
    assert("rest"@[0] != "with"@[0]);
    assert("degree"@[0] != "with"@[0]);
    assert("pedal"@[0] != "with"@[0]);
    assert("ostinato"@[0] != "with"@[0]);
    assert("sequence"@[0] != "with"@[0]);
    assert("transpose"@[0] != "with"@[0]);
    assert("chord"@[0] != "with"@[0]);
    assert("roman"@[0] != "with"@[0]);
    assert("progression"@[0] != "with"@[0]);
    assert("cadence"@[0] != "with"@[0]);
    assert("modulate"@[0] != "with"@[0]);
    assert("dynamic"@[0] != "with"@[0]);
    assert("velocity"@[0] != "with"@[0]);
    assert("articulation"@[0] != "with"@[0]);
    assert("section"@[0] != "with"@[0]);
    assert("ornament"@[0] != "with"@[0]);
    assert("non_chord_tone"@[0] != "with"@[0]);
    assert("tuning_system"@[0] != "with"@[0]);
    assert("world_tradition"@[1] != "with"@[1]);
    assert("historical_era"@[0] != "with"@[0]);
    assert("harmonic_function"@[0] != "with"@[0]);
    assert("for"@[0] != "with"@[0]);
    assert("if"@[0] != "with"@[0]);
    assert("let"@[0] != "with"@[0]);
    assert("call"@[0] != "with"@[0]);
    assert("override"@[0] != "with"@[0]);
}

proof fn lemma_statement_words_differ()
    ensures
        "voice"@ != "velocity"@,
        "note"@ != "velocity"@,
        "rest"@ != "velocity"@,
        "degree"@ != "velocity"@,
        "pedal"@ != "velocity"@,
        "ostinato"@ != "velocity"@,
        "sequence"@ != "velocity"@,
        "transpose"@ != "velocity"@,
        "chord"@ != "velocity"@,
        "roman"@ != "velocity"@,
        "progression"@ != "velocity"@,
        "cadence"@ != "velocity"@,
        "modulate"@ != "velocity"@,
        "dynamic"@ != "velocity"@,
        "voice"@ != "rest"@,
        "note"@ != "rest"@,
        "voice"@ != "note"@,
{
    reveal_strlit("velocity");
    reveal_strlit("rest");
    reveal_strlit("voice");
    assert("voice"@[1] != "velocity"@[1]);
    reveal_strlit("note");
    assert("note"@[0] != "velocity"@[0]);
    assert("voice"@[0] != "note"@[0]);
    reveal_strlit("rest");
    assert("rest"@[0] != "velocity"@[0]);
    reveal_strlit("degree");
    assert("degree"@[0] != "velocity"@[0]);
    reveal_strlit("pedal");
    assert("pedal"@[0] != "velocity"@[0]);
    reveal_strlit("ostinato");
    assert("ostinato"@[0] != "velocity"@[0]);
    reveal_strlit("sequence");
    assert("sequence"@[0] != "velocity"@[0]);
    reveal_strlit("transpose");
    assert("transpose"@[0] != "velocity"@[0]);
    reveal_strlit("chord");
    assert("chord"@[0] != "velocity"@[0]);
    reveal_strlit("roman");
    assert("roman"@[0] != "velocity"@[0]);
    reveal_strlit("progression");
    assert("progression"@[0] != "velocity"@[0]);
    reveal_strlit("cadence");
    assert("cadence"@[0] != "velocity"@[0]);
    reveal_strlit("modulate");
    assert("modulate"@[0] != "velocity"@[0]);
    reveal_strlit("dynamic");
    assert("dynamic"@[0] != "velocity"@[0]);
}

/// A token that opens a bracket group.
pub open spec fn opens_group(k: TokenKind) -> bool {
    k == TokenKind::LBracket || k == TokenKind::LParen
}

/// A token that closes a bracket group.
pub open spec fn closes_group(k: TokenKind) -> bool {
    k == TokenKind::RBracket || k == TokenKind::RParen
}

/// How many bracket groups are open before token `i`, counting from `lo`; a closer with none
/// open leaves the count at 0.
pub open spec fn depth_at(tokens: Seq<Token>, lo: int, i: int) -> nat
    decreases i - lo,
{
    if i <= lo {
        0
    } else {
        let d = depth_at(tokens, lo, i - 1);
        let k = tokens[i - 1].kind_spec();
        if opens_group(k) {
            d + 1
        } else if closes_group(k) {
            if d > 0 {
                (d - 1) as nat
            } else {
                0
            }
        } else {
            d
        }
    }
}

/// Token `i` is a `kind` token outside all brackets opened from `lo` on.
pub open spec fn top_level(tokens: Seq<Token>, lo: int, i: int, kind: TokenKind) -> bool {
    &&& tokens[i].kind_spec() == kind
    &&& !opens_group(kind)
    &&& !closes_group(kind)
    &&& depth_at(tokens, lo, i) == 0
}

/// The first top-level `kind` token among `i..hi`, brackets counted from `lo`.
pub open spec fn first_top_level(tokens: Seq<Token>, lo: int, i: int, hi: int, kind: TokenKind) -> Option<int>
    decreases hi - i,
{
    if i >= hi {
        None
    } else if top_level(tokens, lo, i, kind) {
        Some(i)
    } else {
        first_top_level(tokens, lo, i + 1, hi, kind)
    }
}

/// Splitting `lo..i` at top-level commas: where the open part starts, and the closed non-empty
/// parts so far.
pub open spec fn split_state(tokens: Seq<Token>, lo: int, i: int) -> (int, Seq<(int, int)>)
    decreases i - lo,
{
    if i <= lo {
        (lo, Seq::empty())
    } else {
        let (start, parts) = split_state(tokens, lo, i - 1);
        if top_level(tokens, lo, i - 1, TokenKind::Comma) {
            (
                i,
                if start < i - 1 {
                    parts.push((start, i - 1))
                } else {
                    parts
                },
            )
        } else {
            (start, parts)
        }
    }
}

/// The comma-separated parts of `lo..hi` outside brackets, without the empty ones.
pub open spec fn split_parts(tokens: Seq<Token>, lo: int, hi: int) -> Seq<(int, int)> {
    let (start, parts) = split_state(tokens, lo, hi);
    if start < hi {
        parts.push((start, hi))
    } else {
        parts
    }
}

/// The value of a number token (0 when it does not fit an `i32`).
pub open spec fn number_value(t: Seq<char>) -> i32 {
    match crate::text::parse_int_spec(t, true, i32::MIN as int, i32::MAX as int) {
        Some(v) => v as i32,
        None => 0,
    }
}

/// The expression that a single token stands for: a literal by its kind, `true` or `false`, or
/// else an identifier; it keeps the token's span.
pub open spec fn token_expr(t: Token, e: Expr) -> bool {
    let k = t.kind_spec();
    let text = t.text_spec();
    &&& e.span == t.span_spec()
    &&& if k == TokenKind::Number {
        e.kind == ExprKind::Int(number_value(text))
    } else if k == TokenKind::Pitch {
        e.kind matches ExprKind::PitchLiteral(x) && x@ == text
    } else if k == TokenKind::Interval {
        e.kind matches ExprKind::IntervalLiteral(x) && x@ == text
    } else if k == TokenKind::Duration {
        e.kind matches ExprKind::DurationLiteral(x) && x@ == text
    } else if k == TokenKind::String {
        e.kind matches ExprKind::StringLiteral(x) && x@ == text
    } else if text == "true"@ {
        e.kind == ExprKind::Bool(true)
    } else if text == "false"@ {
        e.kind == ExprKind::Bool(false)
    } else {
        e.kind matches ExprKind::Ident(x) && x@ == text
    }
}

/// The texts of `tokens[lo..hi]` joined with single spaces.
pub open spec fn joined_text(tokens: Seq<Token>, lo: int, hi: int) -> Seq<char>
    decreases hi - lo,
{
    if hi - lo <= 1 {
        tokens[lo].text_spec()
    } else {
        joined_text(tokens, lo, hi - 1) + " "@ + tokens[hi - 1].text_spec()
    }
}

/// The span from the first to the last of `tokens[lo..hi]`.
pub open spec fn span_over(tokens: Seq<Token>, lo: int, hi: int) -> Span {
    Span {
        source_id: tokens[lo].span_spec().source_id,
        start: tokens[lo].span_spec().start,
        end: tokens[hi - 1].span_spec().end,
        line: tokens[lo].span_spec().line,
        column: tokens[lo].span_spec().column,
    }
}

/// `e` is a binary `op` expression over `tokens[lo..hi]`, split at `i`.
pub open spec fn reads_binary(tokens: Seq<Token>, lo: int, hi: int, i: int, op: BinaryOp, e: Expr) -> bool
    decreases hi - lo, 0int,
{
    &&& e.span == span_over(tokens, lo, hi)
    &&& match e.kind {
        ExprKind::Binary { op: o, left, right } => {
            &&& o == op
            &&& lo <= i < hi
            &&& reads_as(tokens, lo, i, *left)
            &&& reads_as(tokens, i + 1, hi, *right)
        },
        _ => false,
    }
}

/// `values` are the expressions of the parts `ps` of `tokens[lo..hi]`, one each.
pub open spec fn reads_parts(tokens: Seq<Token>, lo: int, hi: int, ps: Seq<(int, int)>, values: Seq<Expr>) -> bool
    decreases hi - lo, 0int,
{
    &&& values.len() == ps.len()
    &&& forall|j: int|
        0 <= j < ps.len() ==> lo < (#[trigger] ps[j]).0 < ps[j].1 < hi && reads_as(
            tokens,
            ps[j].0,
            ps[j].1,
            values[j],
        )
}

/// `tokens[lo..hi]` read as an expression give `e`. The first rule that fits decides: a list in
/// brackets; a call `name(args)`; an expression in parentheses; an `==`, else a `+`, else a `-`
/// at top level, split at its first occurrence; `duration x` or `pitch x`; a single token; or
/// else an identifier made of the token texts joined with spaces.
pub open spec fn reads_as(tokens: Seq<Token>, lo: int, hi: int, e: Expr) -> bool
    decreases hi - lo, 1int,
{
    if !(0 <= lo < hi <= tokens.len()) {
        false
    } else {
        let first = tokens[lo].kind_spec();
        let last = tokens[hi - 1].kind_spec();
        if hi - lo >= 2 && first == TokenKind::LBracket && last == TokenKind::RBracket {
            &&& e.span == span_over(tokens, lo, hi)
            &&& match e.kind {
                ExprKind::List(values) => reads_parts(
                    tokens,
                    lo,
                    hi,
                    split_parts(tokens, lo + 1, hi - 1),
                    values@,
                ),
                _ => false,
            }
        } else if hi - lo >= 3 && ident_like(first) && tokens[lo + 1].kind_spec() == TokenKind::LParen
            && last == TokenKind::RParen {
            &&& e.span == span_over(tokens, lo, hi)
            &&& match e.kind {
                ExprKind::Call { callee, args } => callee@ == tokens[lo].text_spec() && reads_parts(
                    tokens,
                    lo,
                    hi,
                    split_parts(tokens, lo + 2, hi - 1),
                    args@,
                ),
                _ => false,
            }
        } else if first == TokenKind::LParen && last == TokenKind::RParen {
            lo + 1 < hi - 1 && reads_as(tokens, lo + 1, hi - 1, e)
        } else if first_top_level(tokens, lo, lo, hi, TokenKind::EqEq) is Some {
            reads_binary(tokens, lo, hi, first_top_level(tokens, lo, lo, hi, TokenKind::EqEq)->0, BinaryOp::Eq, e)
        } else if first_top_level(tokens, lo, lo, hi, TokenKind::Plus) is Some {
            reads_binary(tokens, lo, hi, first_top_level(tokens, lo, lo, hi, TokenKind::Plus)->0, BinaryOp::Add, e)
        } else if first_top_level(tokens, lo, lo, hi, TokenKind::Minus) is Some {
            reads_binary(tokens, lo, hi, first_top_level(tokens, lo, lo, hi, TokenKind::Minus)->0, BinaryOp::Sub, e)
        } else if hi - lo == 2 && (tokens[lo].text_spec() == "duration"@ || tokens[lo].text_spec()
            == "pitch"@) {
            token_expr(tokens[lo + 1], e)
        } else if hi - lo == 1 {
            token_expr(tokens[lo], e)
        } else {
            &&& e.span == span_over(tokens, lo, hi)
            &&& e.kind matches ExprKind::Ident(x) && x@ == joined_text(tokens, lo, hi)
        }
    }
}

/// The span from the first to the last of `tokens[lo..hi]`.
fn expr_span(tokens: &Vec<Token>, lo: usize, hi: usize) -> (r: Span)
    requires
        lo < hi <= tokens@.len(),
    ensures
        r.source_id == tokens@[lo as int].span_spec().source_id,
        r.start == tokens@[lo as int].span_spec().start,
        r.end == tokens@[hi - 1].span_spec().end,
        r.line == tokens@[lo as int].span_spec().line,
        r.column == tokens@[lo as int].span_spec().column,
{
    let first = tokens[lo].span();
    let last = tokens[hi - 1].span();
    Span {
        source_id: first.source_id,
        start: first.start,
        end: last.end,
        line: first.line,
        column: first.column,
    }
}

/// Index of the first `kind` token of `tokens[lo..hi]` outside brackets.
fn find_top_level_operator(tokens: &Vec<Token>, lo: usize, hi: usize, kind: TokenKind) -> (r:
    Option<usize>)
    requires
        lo <= hi <= tokens@.len(),
    ensures
        r matches Some(i) ==> lo <= i < hi && tokens@[i as int].kind_spec() == kind,
        r matches Some(i) ==> first_top_level(tokens@, lo as int, lo as int, hi as int, kind) == Some(
            i as int,
        ),
        r is None ==> first_top_level(tokens@, lo as int, lo as int, hi as int, kind) is None,
{
    let mut depth: usize = 0;
    let mut i = lo;
    while i < hi
        invariant
            lo <= i <= hi,
            hi <= tokens@.len(),
            depth == depth_at(tokens@, lo as int, i as int),
            depth <= i - lo,
            first_top_level(tokens@, lo as int, lo as int, hi as int, kind) == first_top_level(
                tokens@,
                lo as int,
                i as int,
                hi as int,
                kind,
            ),
        decreases hi - i,
    {
        let k = tokens[i].kind();
        if k == TokenKind::LBracket || k == TokenKind::LParen {
            if depth < usize::MAX {
                depth = depth + 1;
            }
        } else if k == TokenKind::RBracket || k == TokenKind::RParen {
            if depth > 0 {
                depth = depth - 1;
            }
        } else if depth == 0 && k == kind {
            return Some(i);
        }
        i = i + 1;
    }
    None
}

/// The comma-separated parts of `tokens[lo..hi]` outside brackets, dropping empty ones.
fn split_expr_list(tokens: &Vec<Token>, lo: usize, hi: usize) -> (r: Vec<(usize, usize)>)
    requires
        lo <= hi <= tokens@.len(),
    ensures
        forall|i: int| 0 <= i < r@.len() ==> lo <= (#[trigger] r@[i]).0 < r@[i].1 <= hi,
        r@.len() == split_parts(tokens@, lo as int, hi as int).len(),
        forall|i: int|
            0 <= i < r@.len() ==> (#[trigger] r@[i]).0 == split_parts(tokens@, lo as int, hi as int)[i].0
                && r@[i].1 == split_parts(tokens@, lo as int, hi as int)[i].1,
{
    let mut parts: Vec<(usize, usize)> = Vec::new();
    let mut depth: usize = 0;
    let mut start = lo;
    let mut i = lo;
    while i < hi
        invariant
            lo <= start <= i,
            lo <= i <= hi,
            start <= hi,
            hi <= tokens@.len(),
            forall|j: int| 0 <= j < parts@.len() ==> lo <= (#[trigger] parts@[j]).0 < parts@[j].1 <= hi,
            depth == depth_at(tokens@, lo as int, i as int),
            depth <= i - lo,
            split_state(tokens@, lo as int, i as int).0 == start,
            split_state(tokens@, lo as int, i as int).1.len() == parts@.len(),
            forall|j: int|
                0 <= j < parts@.len() ==> (#[trigger] parts@[j]).0 == split_state(
                    tokens@,
                    lo as int,
                    i as int,
                ).1[j].0 && parts@[j].1 == split_state(tokens@, lo as int, i as int).1[j].1,
        decreases hi - i,
    {
        let k = tokens[i].kind();
        if k == TokenKind::LBracket || k == TokenKind::LParen {
            if depth < usize::MAX {
                depth = depth + 1;
            }
        } else if k == TokenKind::RBracket || k == TokenKind::RParen {
            if depth > 0 {
                depth = depth - 1;
            }
        } else if k == TokenKind::Comma && depth == 0 {
            if start < i {
                parts.push((start, i));
            }
            start = i + 1;
        }
        i = i + 1;
    }
    if start < hi {
        parts.push((start, hi));
    }
    parts
}

/// No expression reads part `j`.
pub open spec fn part_fails(tokens: Seq<Token>, parts: Seq<(usize, usize)>, j: int) -> bool {
    forall|e: Expr| !reads_as(tokens, parts[j].0 as int, parts[j].1 as int, e)
}

/// The parts as integer ranges.
pub open spec fn as_ranges(parts: Seq<(usize, usize)>) -> Seq<(int, int)> {
    Seq::new(parts.len(), |j: int| (parts[j].0 as int, parts[j].1 as int))
}

/// Reads each part as an expression; `None` when any part fails.
fn parse_parts(tokens: &Vec<Token>, parts: &Vec<(usize, usize)>, lo: usize, hi: usize) -> (r:
    Option<Vec<Expr>>)
    requires
        lo <= hi <= tokens@.len(),
        hi - lo >= 2,
        forall|i: int|
            0 <= i < parts@.len() ==> lo + 1 <= (#[trigger] parts@[i]).0 < parts@[i].1 <= hi - 1,
    ensures
        r matches Some(v) ==> v@.len() == parts@.len(),
        r matches Some(v) ==> reads_parts(tokens@, lo as int, hi as int, as_ranges(parts@), v@),
        r is None ==> exists|j: int| 0 <= j < parts@.len() && #[trigger] part_fails(tokens@, parts@, j),
    decreases hi - lo, 1nat,
{
    let mut out: Vec<Expr> = Vec::new();
    let mut i: usize = 0;
    while i < parts.len()
        invariant
            i <= parts@.len(),
            out@.len() == i,
            lo <= hi <= tokens@.len(),
            hi - lo >= 2,
            forall|j: int|
                0 <= j < parts@.len() ==> lo + 1 <= (#[trigger] parts@[j]).0 < parts@[j].1 <= hi - 1,
            forall|j: int|
                0 <= j < i ==> reads_as(tokens@, parts@[j].0 as int, parts@[j].1 as int, #[trigger] out@[j]),
        decreases parts.len() - i,
    {
        let (a, b) = parts[i];
        match parse_expr_tokens_inner(tokens, a, b, lo, hi) {
            Some(e) => out.push(e),
            None => {
                assert(part_fails(tokens@, parts@, i as int));
                return None;
            },
        }
        i = i + 1;
    }
    proof {
        let ps = as_ranges(parts@);
        assert forall|j: int| 0 <= j < ps.len() implies lo < (#[trigger] ps[j]).0 < ps[j].1 < hi
            && reads_as(tokens@, ps[j].0, ps[j].1, out@[j]) by {
            assert(reads_as(tokens@, parts@[j].0 as int, parts@[j].1 as int, out@[j]));
        }
    }
    Some(out)
}

fn parse_expr_tokens_inner(tokens: &Vec<Token>, a: usize, b: usize, lo: usize, hi: usize) -> (r:
    Option<Expr>)
    requires
        lo <= a < b <= hi <= tokens@.len(),
        hi - lo >= 2,
        b - a < hi - lo,
    ensures
        r matches Some(e) ==> reads_as(tokens@, a as int, b as int, e),
        r is None ==> forall|e: Expr| !reads_as(tokens@, a as int, b as int, e),
    decreases hi - lo, 0nat,
{
    parse_expr_tokens(tokens, a, b)
}

/// Reads `tokens[lo..hi]` split at the operator at `index` as a binary `op` expression.
fn parse_split(tokens: &Vec<Token>, lo: usize, hi: usize, index: usize, op: BinaryOp) -> (r: Option<
    Expr,
>)
    requires
        lo <= index < hi <= tokens@.len(),
    ensures
        r matches Some(e) ==> reads_binary(tokens@, lo as int, hi as int, index as int, op, e),
        r is None ==> forall|e: Expr| !reads_binary(tokens@, lo as int, hi as int, index as int, op, e),
    decreases hi - lo, 1nat,
{
    let span = expr_span(tokens, lo, hi);
    let left = match parse_expr_tokens(tokens, lo, index) {
        Some(e) => e,
        None => {
            assert forall|e: Expr| !reads_binary(tokens@, lo as int, hi as int, index as int, op, e) by {
                match e.kind {
                    ExprKind::Binary { op: o, left, right } => {
                        assert(!reads_as(tokens@, lo as int, index as int, *left));
                    },
                    _ => {},
                }
            }
            return None;
        },
    };
    let right = match parse_expr_tokens(tokens, index + 1, hi) {
        Some(e) => e,
        None => {
            assert forall|e: Expr| !reads_binary(tokens@, lo as int, hi as int, index as int, op, e) by {
                match e.kind {
                    ExprKind::Binary { op: o, left, right } => {
                        assert(!reads_as(tokens@, index + 1, hi as int, *right));
                    },
                    _ => {},
                }
            }
            return None;
        },
    };
    let e = Expr::new(ExprKind::Binary { op, left: Box::new(left), right: Box::new(right) }, span);
    assert(e.span == span_over(tokens@, lo as int, hi as int));
    Some(e)
}

/// Reads `tokens[lo..hi]` as an expression: a list, a call, a parenthesised expression,
/// an `==`, `+` or `-` (split at the first top-level operator, in that order), `duration x`
/// or `pitch x`, a single token, or else an identifier made of the joined token texts.
pub(crate) fn parse_expr_tokens(tokens: &Vec<Token>, lo: usize, hi: usize) -> (r: Option<Expr>)
    requires
        lo <= hi <= tokens@.len(),
    ensures
        hi == lo ==> r is None,
        r is Some ==> lo < hi,
        r matches Some(e) ==> reads_as(tokens@, lo as int, hi as int, e),
        r is None ==> forall|e: Expr| !reads_as(tokens@, lo as int, hi as int, e),
    decreases hi - lo, 2nat,
{
    if hi == lo {
        return None;
    }
    let span = expr_span(tokens, lo, hi);
    assert(span == span_over(tokens@, lo as int, hi as int));
    let first_kind = tokens[lo].kind();
    let last_kind = tokens[hi - 1].kind();
    if hi - lo >= 2 && first_kind == TokenKind::LBracket && last_kind == TokenKind::RBracket {
        let parts = split_expr_list(tokens, lo + 1, hi - 1);
        assert(as_ranges(parts@) =~= split_parts(tokens@, lo + 1, hi - 1));
        return match parse_parts(tokens, &parts, lo, hi) {
            Some(values) => Some(Expr::new(ExprKind::List(values), span)),
            None => {
                assert forall|e: Expr| !reads_as(tokens@, lo as int, hi as int, e) by {
                    let j = choose|j: int| 0 <= j < parts@.len() && #[trigger] part_fails(tokens@, parts@, j);
                    match e.kind {
                        ExprKind::List(values) => {
                            if reads_as(tokens@, lo as int, hi as int, e) {
                                assert(as_ranges(parts@)[j] == (parts@[j].0 as int, parts@[j].1 as int));
                                assert(reads_parts(
                                    tokens@,
                                    lo as int,
                                    hi as int,
                                    split_parts(tokens@, lo + 1, hi - 1),
                                    values@,
                                ));
                                assert(part_fails(tokens@, parts@, j));
                                assert(!reads_as(tokens@, parts@[j].0 as int, parts@[j].1 as int, values@[j]));
                            }
                        },
                        _ => {},
                    }
                }
                None
            },
        };
    }
    if hi - lo >= 3 && is_ident_like(first_kind) && tokens[lo + 1].kind() == TokenKind::LParen
        && last_kind == TokenKind::RParen {
        let parts = split_expr_list(tokens, lo + 2, hi - 1);
        assert(as_ranges(parts@) =~= split_parts(tokens@, lo + 2, hi - 1));
        return match parse_parts(tokens, &parts, lo, hi) {
            Some(args) => Some(
                Expr::new(ExprKind::Call { callee: owned(tokens[lo].text()), args }, span),
            ),
            None => {
                assert forall|e: Expr| !reads_as(tokens@, lo as int, hi as int, e) by {
                    let j = choose|j: int| 0 <= j < parts@.len() && #[trigger] part_fails(tokens@, parts@, j);
                    match e.kind {
                        ExprKind::Call { callee, args } => {
                            if reads_as(tokens@, lo as int, hi as int, e) {
                                assert(as_ranges(parts@)[j] == (parts@[j].0 as int, parts@[j].1 as int));
                                assert(reads_parts(
                                    tokens@,
                                    lo as int,
                                    hi as int,
                                    split_parts(tokens@, lo + 2, hi - 1),
                                    args@,
                                ));
                                assert(part_fails(tokens@, parts@, j));
                                assert(!reads_as(tokens@, parts@[j].0 as int, parts@[j].1 as int, args@[j]));
                            }
                        },
                        _ => {},
                    }
                }
                None
            },
        };
    }
    if first_kind == TokenKind::LParen && last_kind == TokenKind::RParen {
        if hi - lo >= 2 {
            let r = parse_expr_tokens(tokens, lo + 1, hi - 1);
            proof {
                assert forall|e: Expr| reads_as(tokens@, lo as int, hi as int, e) == (lo + 1 < hi - 1
                    && reads_as(tokens@, lo + 1, hi - 1, e)) by {}
            }
            return r;
        }
        return None;
    }
    match find_top_level_operator(tokens, lo, hi, TokenKind::EqEq) {
        Some(index) => {
            let r = parse_split(tokens, lo, hi, index, BinaryOp::Eq);
            proof {
                assert forall|e: Expr| reads_as(tokens@, lo as int, hi as int, e) == reads_binary(
                    tokens@,
                    lo as int,
                    hi as int,
                    index as int,
                    BinaryOp::Eq,
                    e,
                ) by {}
            }
            return r;
        },
        None => {},
    }
    match find_top_level_operator(tokens, lo, hi, TokenKind::Plus) {
        Some(index) => {
            let r = parse_split(tokens, lo, hi, index, BinaryOp::Add);
            proof {
                assert forall|e: Expr| reads_as(tokens@, lo as int, hi as int, e) == reads_binary(
                    tokens@,
                    lo as int,
                    hi as int,
                    index as int,
                    BinaryOp::Add,
                    e,
                ) by {}
            }
            return r;
        },
        None => {},
    }
    match find_top_level_operator(tokens, lo, hi, TokenKind::Minus) {
        Some(index) => {
            let r = parse_split(tokens, lo, hi, index, BinaryOp::Sub);
            proof {
                assert forall|e: Expr| reads_as(tokens@, lo as int, hi as int, e) == reads_binary(
                    tokens@,
                    lo as int,
                    hi as int,
                    index as int,
                    BinaryOp::Sub,
                    e,
                ) by {}
            }
            return r;
        },
        None => {},
    }
    if hi - lo == 2 && (text_is_str(tokens[lo].text(), "duration") || text_is_str(
        tokens[lo].text(),
        "pitch",
    )) {
        return Some(token_to_expr(&tokens[lo + 1]));
    }
    if hi - lo == 1 {
        return Some(token_to_expr(&tokens[lo]));
    }
    let mut joined = owned(tokens[lo].text());
    let mut i = lo + 1;
    while i < hi
        invariant
            lo < i <= hi,
            hi <= tokens@.len(),
            joined@ == joined_text(tokens@, lo as int, i as int),
        decreases hi - i,
    {
        append(&mut joined, " ");
        append(&mut joined, tokens[i].text());
        i = i + 1;
        proof {
            reveal_strlit(" ");
        }
    }
    Some(Expr::new(ExprKind::Ident(joined), span))
}

fn text_is_str(a: &str, b: &str) -> (r: bool)
    ensures
        r == (a@ == b@),
{
    crate::text::str_eq(a, b)
}

/// A single token as an expression: a literal by its kind, `true`/`false`, or an identifier.
fn token_to_expr(token: &Token) -> (r: Expr)
    ensures
        r.span == token.span_spec(),
        token_expr(*token, r),
{
    let k = token.kind();
    let text = token.text();
    let kind = if k == TokenKind::Number {
        ExprKind::Int(
            match parse_i32(text) {
                Some(v) => v,
                None => 0,
            },
        )
    } else if k == TokenKind::Pitch {
        ExprKind::PitchLiteral(owned(text))
    } else if k == TokenKind::Interval {
        ExprKind::IntervalLiteral(owned(text))
    } else if k == TokenKind::Duration {
        ExprKind::DurationLiteral(owned(text))
    } else if k == TokenKind::String {
        ExprKind::StringLiteral(owned(text))
    } else if text_is_str(text, "true") {
        ExprKind::Bool(true)
    } else if text_is_str(text, "false") {
        ExprKind::Bool(false)
    } else {
        ExprKind::Ident(owned(text))
    };
    Expr::new(kind, token.span())
}

/// The text of a binary operator, with its spaces.
pub open spec fn binary_op_text(op: BinaryOp) -> Seq<char> {
    match op {
        BinaryOp::Add => " + "@,
        BinaryOp::Sub => " - "@,
        BinaryOp::Eq => " == "@,
    }
}

/// The source text of an expression, as the parser records it in statements: names
/// and literals as written, integers in decimal, lists and calls with their items
/// separated by `, `, and binary operations with spaces round the operator.
pub open spec fn expr_source(e: Expr) -> Seq<char>
    decreases e, 0int,
{
    match e.kind {
        ExprKind::Ident(v) => v@,
        ExprKind::PitchLiteral(v) => v@,
        ExprKind::IntervalLiteral(v) => v@,
        ExprKind::DurationLiteral(v) => v@,
        ExprKind::StringLiteral(v) => v@,
        ExprKind::Int(v) => crate::text::int_text(v as int),
        ExprKind::Bool(v) => if v {
            "true"@
        } else {
            "false"@
        },
        ExprKind::List(values) => "["@ + items_source(values@, values@.len() as int) + "]"@,
        ExprKind::Call { callee, args } => callee@ + "("@ + items_source(args@, args@.len() as int)
            + ")"@,
        ExprKind::Binary { op, left, right } => expr_source(*left) + binary_op_text(op)
            + expr_source(*right),
    }
}

/// The sources of the first `n` expressions, separated by `, `.
pub open spec fn items_source(values: Seq<Expr>, n: int) -> Seq<char>
    decreases values, n,
{
    if n <= 0 || n > values.len() {
        Seq::empty()
    } else if n == 1 {
        expr_source(values[0])
    } else {
        items_source(values, n - 1) + ", "@ + expr_source(values[n - 1])
    }
}

/// The source text of an expression, as the parser records it in statements.
pub fn expr_to_source(expr: &Expr) -> (r: String)
    ensures
        r@ == expr_source(*expr),
    decreases expr, 1nat,
{
    match &expr.kind {
        ExprKind::Ident(value) => value.clone(),
        ExprKind::PitchLiteral(value) => value.clone(),
        ExprKind::IntervalLiteral(value) => value.clone(),
        ExprKind::DurationLiteral(value) => value.clone(),
        ExprKind::StringLiteral(value) => value.clone(),
        ExprKind::Int(value) => i64_text(*value as i64),
        ExprKind::Bool(value) => if *value {
            owned("true")
        } else {
            owned("false")
        },
        ExprKind::List(values) => {
            let mut s = owned("[");
            append_joined(&mut s, values, expr);
            append(&mut s, "]");
            s
        },
        ExprKind::Call { callee, args } => {
            let mut s = callee.clone();
            append(&mut s, "(");
            append_joined(&mut s, args, expr);
            append(&mut s, ")");
            s
        },
        ExprKind::Binary { op, left, right } => {
            let mut s = expr_to_source(left);
            let o = match op {
                BinaryOp::Add => " + ",
                BinaryOp::Sub => " - ",
                BinaryOp::Eq => " == ",
            };
            append(&mut s, o);
            let r = expr_to_source(right);
            append(&mut s, r.as_str());
            s
        },
    }
}

/// Appends the sources of `values`, separated by `, `.
fn append_joined(s: &mut String, values: &Vec<Expr>, parent: &Expr)
    requires
        forall|i: int| 0 <= i < values@.len() ==> decreases_to!(*parent => #[trigger] values@[i]),
    ensures
        final(s)@ == old(s)@ + items_source(values@, values@.len() as int),
    decreases parent, 0nat,
{
    let ghost start = s@;
    let mut i: usize = 0;
    while i < values.len()
        invariant
            i <= values@.len(),
            s@ == start + items_source(values@, i as int),
            forall|k: int| 0 <= k < values@.len() ==> decreases_to!(*parent => #[trigger] values@[k]),
        decreases values.len() - i,
    {
        if i > 0 {
            append(s, ", ");
        }
        let part = expr_to_source(&values[i]);
        append(s, part.as_str());
        i = i + 1;
    }
}

/// Parses a MusicLang source text into a program.
pub fn parse_source(source: &str) -> (r: Result<Program, Vec<Diagnostic>>)
    requires
        4 * source@.len() + 4 < usize::MAX,
    ensures
        r matches Err(ds) ==> forall|i: int|
            0 <= i < ds@.len() ==> #[trigger] lex_diagnostic(ds@[i]) || parse_diagnostic(ds@[i]),
        r matches Err(ds) ==> ds@.len() > 0,
        r matches Ok(p) ==> (p.style is Some <==> p.styles@.len() > 0),
        r matches Ok(p) ==> exists|a: int, b: int|
            0 <= a <= b <= source@.len() && #[trigger] source@.subrange(a, b) == p.score.name@,
{
    let tokens = match tokenize_source(source) {
        Ok(t) => t,
        Err(ds) => return Err(ds),
    };
    let ghost ts = tokens@;
    let parser = Parser::new(tokens);
    match parser.parse_program() {
        Ok(p) => {
            proof {
                let k = choose|k: int|
                    0 <= k < ts.len() - 1 && ident_like(ts[k].kind_spec()) && #[trigger] ts[k].text_spec()
                        == "score"@ && name_kind(ts[k + 1].kind_spec()) && p.score.name@ == ts[k
                        + 1].text_spec() && placed_at(p.score.line, p.score.column, p.score.span, ts[k]);
                let runs = choose|runs: Seq<(int, int)>| covers(source@, ts.drop_last(), runs, false);
                assert(ts[k + 1].kind_spec() != TokenKind::Eof);
                assert(k + 1 < ts.len() - 1);
                assert(ts.drop_last()[k + 1] == ts[k + 1]);
                assert(lexeme(source@, runs[k + 1].0, runs[k + 1].1, ts[k + 1], false));
                assert(source@.subrange(runs[k + 1].0, runs[k + 1].1) == p.score.name@);
            }
            Ok(p)
        },
        Err(ds) => {
            assert forall|i: int| 0 <= i < ds@.len() implies #[trigger] lex_diagnostic(ds@[i])
                || parse_diagnostic(ds@[i]) by {
                assert(parse_diagnostic(ds@[i]));
            }
            Err(ds)
        },
    }
}

} // verus!
