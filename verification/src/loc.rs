//! Places in a source text.

use vstd::prelude::*;

verus! {

/// A position in the source text: line and column, both counted from one.
#[derive(Clone, Copy, Debug, PartialEq, Eq, Structural)]
pub struct Loc {
    pub line: usize,
    pub col: usize,
}

impl Loc {
    pub fn new(line: usize, col: usize) -> (loc: Self)
        ensures
            loc.line == line,
            loc.col == col,
    {
        Self { line, col }
    }
}

} // verus!
