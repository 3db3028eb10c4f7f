//! A small expression language: scanner, parser and tree-walking evaluator,
//! with every function verified against a mathematical model of its result.

pub mod error;
pub mod expr;
pub mod lox;
pub mod number;
pub mod parser;
pub mod scanner;
pub mod token;
pub mod value;
