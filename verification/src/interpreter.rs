//! The language front-end: tokens, lexer, abstract syntax, parser, the object
//! model of runtime values, and the evaluator with its built-in functions.

pub mod ast;
pub mod builtin;
pub mod eval;
pub mod lexer;
pub mod object;
pub mod parser;
pub mod text;
pub mod token;
