//! A small compiler from a C-like language to ARM64 assembly: a lexer, a
//! precedence-climbing parser, a stack-frame layout pass and a code emitter.

pub mod assembly;
pub mod ast;
pub mod codegen;
pub mod frame;
pub mod laws;
pub mod parser;
pub mod token;
pub mod tokenizer;
