use vstd::prelude::*;

verus! {

/// Where a lexeme sits in the source: the half-open byte range
/// `start..end`, and the line (from 1) and column (from 0) of the position
/// just behind it.
#[derive(Debug, PartialEq, Eq, Structural, Copy, Clone)]
pub struct Position {
    pub start: usize,
    pub end: usize,
    pub line_number: usize,
    pub column_number: usize,
}

} // verus!
