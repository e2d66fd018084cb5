//! Source positions, tokens, the scanner and the expression tree.

pub mod ast;
pub mod chars;
pub mod form;
pub mod grammar;
pub mod keywords;
pub mod laws;
pub mod lexer;
pub mod position;
pub mod token;
