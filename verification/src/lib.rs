//! A small expression-oriented scripting language: a lexer turns source bytes
//! into tokens, a precedence-climbing parser builds an abstract syntax tree,
//! and a tree-walking evaluator reduces the tree to runtime values against a
//! chain of lexically scoped environments.
//!
//! Every stage carries a full functional specification: the lexer, the parser
//! and the evaluator are each proved equal to a specification-level function
//! over mathematical views of the data.

pub mod ast;
pub mod builtins;
pub mod eval;
pub mod lexer;
pub mod object;
pub mod parser;
pub mod token;
