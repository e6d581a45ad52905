//! A verified prefix-notation integer calculator.
//!
//! A line of text such as `(+ 1 (* 2 3))` is parsed into an expression tree
//! and folded, left to right, into a single 32-bit integer. The grammar, the
//! parser, the evaluator, and the per-line driver logic are all specified and
//! proved here; an interactive front end only has to read lines and print
//! outcomes.

pub mod ast;
pub mod eval;
pub mod parser;
pub mod driver;
