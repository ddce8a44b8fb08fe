//! A small scripting language: a lexer, a precedence-climbing parser and a
//! tree-walking evaluator, each stated against a mathematical model and verified.

pub mod ast;
pub mod chars;
pub mod environment;
pub mod error;
pub mod grammar;
pub mod interpreter;
pub mod lexer;
pub mod parser;
pub mod roundtrip;
pub mod semantics;
pub mod spelling;
pub mod token;
pub mod value;
