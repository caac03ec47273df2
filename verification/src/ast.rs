use vstd::prelude::*;

use crate::diagnostic::Span;

verus! {

#[derive(Debug, PartialEq, Eq)]
pub struct Program {
    pub style: Option<StyleDecl>,
    pub styles: Vec<StyleDecl>,
    pub functions: Vec<FunctionDecl>,
    pub score: ScoreDecl,
}

#[derive(Debug, Clone, PartialEq, Eq)]
pub struct StyleDecl {
    pub name: String,
    pub parent: Option<String>,
    pub entries: Vec<StyleEntry>,
    pub line: usize,
    pub column: usize,
    pub span: Span,
}

#[derive(Debug, Clone, PartialEq, Eq)]
pub struct StyleEntry {
    pub key: String,
    pub value: String,
    pub line: usize,
    pub column: usize,
    pub span: Span,
}

#[derive(Debug, PartialEq, Eq)]
pub struct FunctionDecl {
    pub name: String,
    pub statements: Vec<Stmt>,
    pub line: usize,
    pub column: usize,
    pub span: Span,
}

#[derive(Debug, PartialEq, Eq)]
pub struct ScoreDecl {
    pub name: String,
    pub style: Option<String>,
    pub metadata: Vec<ScoreMeta>,
    pub statements: Vec<Stmt>,
    pub line: usize,
    pub column: usize,
    pub span: Span,
}

#[derive(Debug, Clone, PartialEq, Eq)]
pub enum ScoreMeta {
    Title(TextMetaDecl),
    Composer(TextMetaDecl),
    Tempo(TempoDecl),
    Meter(MeterDecl),
    Key(KeyDecl),
}

#[derive(Debug, Clone, PartialEq, Eq)]
pub struct TextMetaDecl {
    pub value: String,
    pub line: usize,
    pub column: usize,
    pub span: Span,
}

#[derive(Debug, PartialEq, Eq)]
pub enum Stmt {
    Voice(VoiceDecl),
    Note(NoteStmt),
    Rest(RestStmt),
    Degree(DegreeStmt),
    Pedal(PedalStmt),
    Ostinato(OstinatoStmt),
    Sequence(SequenceStmt),
    Transpose(TransposeStmt),
    Chord(ChordStmt),
    Roman(RomanStmt),
    Progression(ProgressionStmt),
    Cadence(CadenceStmt),
    Modulate(ModulateStmt),
    Dynamic(DynamicStmt),
    Velocity(VelocityStmt),
    Articulation(ArticulationStmt),
    Section(SectionStmt),
    Ornament(OrnamentStmt),
    NonChordTone(NonChordToneStmt),
    TuningSystem(TuningSystemStmt),
    WorldTradition(WorldTraditionStmt),
    HistoricalEra(HistoricalEraStmt),
    HarmonicFunction(HarmonicFunctionStmt),
    For(ForStmt),
    If(IfStmt),
    Let(LetStmt),
    Call(CallStmt),
    Override(OverrideStmt),
    WithStyle(WithStyleStmt),
}

#[derive(Debug, PartialEq, Eq)]
pub struct Expr {
    pub kind: ExprKind,
    pub span: Span,
}

impl Expr {
    pub(crate) fn new(kind: ExprKind, span: Span) -> (r: Expr)
        ensures
            r.kind == kind,
            r.span == span,
    {
        Expr { kind, span }
    }
}

#[derive(Debug, PartialEq, Eq)]
pub enum ExprKind {
    Ident(String),
    Int(i32),
    Bool(bool),
    PitchLiteral(String),
    IntervalLiteral(String),
    DurationLiteral(String),
    StringLiteral(String),
    List(Vec<Expr>),
    Call {
        callee: String,
        args: Vec<Expr>,
    },
    Binary {
        op: BinaryOp,
        left: Box<Expr>,
        right: Box<Expr>,
    },
}

#[derive(Debug, Clone, Copy, PartialEq, Eq, Structural)]
pub enum BinaryOp {
    Add,
    Sub,
    Eq,
}

#[derive(Debug, PartialEq, Eq)]
pub struct VoiceDecl {
    pub name: String,
    pub program: Option<u8>,
    pub volume: Option<u8>,
    pub pan: Option<u8>,
    pub statements: Vec<Stmt>,
    pub line: usize,
    pub column: usize,
    pub span: Span,
}

#[derive(Debug, Clone, PartialEq, Eq)]
pub struct TempoDecl {
    pub bpm: u16,
    pub line: usize,
    pub column: usize,
    pub span: Span,
}

#[derive(Debug, Clone, PartialEq, Eq)]
pub struct MeterDecl {
    pub numerator: u8,
    pub denominator: u8,
    pub line: usize,
    pub column: usize,
    pub span: Span,
}

#[derive(Debug, Clone, PartialEq, Eq)]
pub struct KeyDecl {
    pub tonic: String,
    pub mode: String,
    pub line: usize,
    pub column: usize,
    pub span: Span,
}

#[derive(Debug, PartialEq, Eq)]
pub struct NoteStmt {
    pub pitch: String,
    pub duration: String,
    pub pitch_expr: Expr,
    pub duration_expr: Expr,
    pub line: usize,
    pub column: usize,
    pub span: Span,
}

#[derive(Debug, PartialEq, Eq)]
pub struct RestStmt {
    pub duration: String,
    pub duration_expr: Expr,
    pub line: usize,
    pub column: usize,
    pub span: Span,
}

#[derive(Debug, PartialEq, Eq)]
pub struct DegreeStmt {
    pub degree: String,
    pub octave: i32,
    pub duration: String,
    pub duration_expr: Expr,
    pub line: usize,
    pub column: usize,
    pub span: Span,
}

#[derive(Debug, PartialEq, Eq)]
pub struct PedalStmt {
    pub pitch: String,
    pub count: i32,
    pub duration: String,
    pub pitch_expr: Expr,
    pub count_expr: Expr,
    pub duration_expr: Expr,
    pub line: usize,
    pub column: usize,
    pub span: Span,
}

#[derive(Debug, PartialEq, Eq)]
pub struct OstinatoStmt {
    pub count: i32,
    pub count_expr: Expr,
    pub statements: Vec<Stmt>,
    pub line: usize,
    pub column: usize,
    pub span: Span,
}

#[derive(Debug, PartialEq, Eq)]
pub struct SequenceStmt {
    pub count: i32,
    pub count_expr: Expr,
    pub interval: String,
    pub interval_expr: Expr,
    pub statements: Vec<Stmt>,
    pub line: usize,
    pub column: usize,
    pub span: Span,
}

#[derive(Debug, PartialEq, Eq)]
pub struct TransposeStmt {
    pub interval: String,
    pub interval_expr: Expr,
    pub statements: Vec<Stmt>,
    pub line: usize,
    pub column: usize,
    pub span: Span,
}

#[derive(Debug, PartialEq, Eq)]
pub struct ChordStmt {
    pub pitches: Vec<String>,
    pub duration: String,
    pub pitch_exprs: Vec<Expr>,
    pub root_expr: Option<Expr>,
    pub quality: Option<String>,
    pub duration_expr: Expr,
    pub line: usize,
    pub column: usize,
    pub span: Span,
}

#[derive(Debug, PartialEq, Eq)]
pub struct RomanStmt {
    pub symbol: String,
    pub duration: String,
    pub duration_expr: Expr,
    pub line: usize,
    pub column: usize,
    pub span: Span,
}

#[derive(Debug, PartialEq, Eq)]
pub struct ProgressionStmt {
    pub symbols: Vec<String>,
    pub duration: String,
    pub duration_expr: Expr,
    pub line: usize,
    pub column: usize,
    pub span: Span,
}

#[derive(Debug, PartialEq, Eq)]
pub struct CadenceStmt {
    pub kind: String,
    pub duration: String,
    pub duration_expr: Expr,
    pub line: usize,
    pub column: usize,
    pub span: Span,
}

#[derive(Debug, PartialEq, Eq)]
pub struct ModulateStmt {
    pub tonic: String,
    pub mode: String,
    pub line: usize,
    pub column: usize,
    pub span: Span,
}

#[derive(Debug, PartialEq, Eq)]
pub struct DynamicStmt {
    pub mark: String,
    pub line: usize,
    pub column: usize,
    pub span: Span,
}

#[derive(Debug, PartialEq, Eq)]
pub struct VelocityStmt {
    pub velocity: u8,
    pub line: usize,
    pub column: usize,
    pub span: Span,
}

#[derive(Debug, PartialEq, Eq)]
pub struct ArticulationStmt {
    pub mark: String,
    pub line: usize,
    pub column: usize,
    pub span: Span,
}

#[derive(Debug, PartialEq, Eq)]
pub struct SectionStmt {
    pub label: String,
    pub statements: Vec<Stmt>,
    pub line: usize,
    pub column: usize,
    pub span: Span,
}

#[derive(Debug, PartialEq, Eq)]
pub struct OrnamentStmt {
    pub kind: String,
    pub statements: Vec<Stmt>,
    pub line: usize,
    pub column: usize,
    pub span: Span,
}

#[derive(Debug, PartialEq, Eq)]
pub struct NonChordToneStmt {
    pub kind: String,
    pub statements: Vec<Stmt>,
    pub line: usize,
    pub column: usize,
    pub span: Span,
}

#[derive(Debug, PartialEq, Eq)]
pub struct TuningSystemStmt {
    pub kind: String,
    pub statements: Vec<Stmt>,
    pub line: usize,
    pub column: usize,
    pub span: Span,
}

#[derive(Debug, PartialEq, Eq)]
pub struct WorldTraditionStmt {
    pub kind: String,
    pub statements: Vec<Stmt>,
    pub line: usize,
    pub column: usize,
    pub span: Span,
}

#[derive(Debug, PartialEq, Eq)]
pub struct HistoricalEraStmt {
    pub kind: String,
    pub statements: Vec<Stmt>,
    pub line: usize,
    pub column: usize,
    pub span: Span,
}

#[derive(Debug, PartialEq, Eq)]
pub struct HarmonicFunctionStmt {
    pub kind: String,
    pub statements: Vec<Stmt>,
    pub line: usize,
    pub column: usize,
    pub span: Span,
}

#[derive(Debug, PartialEq, Eq)]
pub struct ForStmt {
    pub variable: String,
    pub start: i32,
    pub end: i32,
    pub statements: Vec<Stmt>,
    pub line: usize,
    pub column: usize,
    pub span: Span,
}

#[derive(Debug, PartialEq, Eq)]
pub struct IfStmt {
    pub left: String,
    pub equals: i32,
    pub condition: Expr,
    pub statements: Vec<Stmt>,
    pub line: usize,
    pub column: usize,
    pub span: Span,
}

#[derive(Debug, PartialEq, Eq)]
pub struct LetStmt {
    pub name: String,
    pub value: String,
    pub value_expr: Expr,
    pub line: usize,
    pub column: usize,
    pub span: Span,
}

#[derive(Debug, PartialEq, Eq)]
pub struct CallStmt {
    pub name: String,
    pub line: usize,
    pub column: usize,
    pub span: Span,
}

#[derive(Debug, PartialEq, Eq)]
pub struct OverrideStmt {
    pub rule: String,
    pub reason: Option<String>,
    pub statements: Vec<Stmt>,
    pub line: usize,
    pub column: usize,
    pub span: Span,
}

#[derive(Debug, PartialEq, Eq)]
pub struct WithStyleStmt {
    pub style: String,
    pub statements: Vec<Stmt>,
    pub line: usize,
    pub column: usize,
    pub span: Span,
}

} // verus!
