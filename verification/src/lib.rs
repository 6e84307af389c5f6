//! A small dynamically-typed scripting language: a lexer that turns source
//! text into tokens, a recursive-descent parser that builds a syntax tree,
//! and a tree-walking evaluator that runs the tree against a mutable
//! variable store.

pub mod ast;
pub mod errors;
pub mod eval;
pub mod float;
pub mod lexer;
pub mod object;
pub mod parser;
pub mod tokens;
