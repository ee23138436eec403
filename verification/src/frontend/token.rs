//! Places in the grammar's source text.

use vstd::prelude::*;

verus! {

/// A line and a column.
#[derive(Clone, Copy, PartialEq, Eq, Structural, Debug)]
pub struct Position {
    pub line: u32,
    pub column: u32,
}

/// The stretch of source text from `start` to `end`.
#[derive(Clone, Copy, PartialEq, Eq, Structural, Debug)]
pub struct Range {
    pub start: Position,
    pub end: Position,
}

} // verus!
