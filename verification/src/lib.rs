//! A miniature compiler front end for a tiny imperative language: an abstract
//! syntax tree, a constant-folding / branch-eliminating optimizer, a
//! deterministic pretty-printer, and a recursive-descent parser.

pub mod ast;
pub mod error;
pub mod laws;
pub mod optimizer;
pub mod parser;
pub mod render;
