//! A lexical analyser with precise source positions and collected
//! diagnostics, together with the expression tree it feeds.

pub mod error;
pub mod parser;
