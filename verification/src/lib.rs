//! A small dynamically typed scripting language: a byte-level lexer, a
//! recursive-descent parser with error recovery, and a tree-walking
//! evaluator with lexically scoped environments and first-class functions.
pub mod detector;
pub mod env;
pub mod expr;
pub mod interp;
pub mod laws;
pub mod callables;
pub mod numbers;
pub mod parens;
pub mod parser;
pub mod scanner;
pub mod stmt;
pub mod token;
pub mod token_type;
