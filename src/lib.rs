//! A small Logo-like turtle-graphics language: a parser from source text to
//! a syntax tree and a tree-walking evaluator that drives a turtle.

pub mod ast;
pub mod text;
pub mod grammar;
pub mod parser;
pub mod turtle;
pub mod semantics;
pub mod evaluator;
pub mod laws;
pub mod output;
