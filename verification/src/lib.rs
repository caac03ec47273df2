pub mod text;
pub mod music;
pub mod diagnostic;
pub mod theory;
pub mod ir;
pub mod style;
pub mod token;
pub mod lexer;
pub mod ast;
pub mod parser;
pub mod track;
pub mod analysis;
pub mod vocab;
pub mod stylebuild;
pub mod eval;
pub mod compiler;
pub mod render;
pub mod midi;
pub mod cli;
pub mod editor;
