//! A front end for a small arithmetic / let / function language: a parser
//! from text to syntax trees, an evaluator with dynamic scoping, and a
//! structural type checker.  Each of the three has its own syntax tree.

pub mod evaluator;
pub mod parser;
pub mod typer;
