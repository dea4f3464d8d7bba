//! Source positions.

use vstd::prelude::*;

verus! {

/// A position inside a source file, as the front-end records it on every node.
#[derive(Clone, Copy, Debug, PartialEq, Eq, Structural)]
pub struct Pos {
    pub line: u32,
    pub column: u32,
}

/// A position together with the file it belongs to.
#[derive(Clone, Copy, Debug)]
pub struct SourcePos {
    pub line: u32,
    pub column: u32,
    pub path: &'static str,
}

impl SourcePos {
    /// The position `pos` in the file `path`.
    pub fn new(pos: Pos, path: &'static str) -> (r: SourcePos)
        ensures
            r == (SourcePos { line: pos.line, column: pos.column, path }),
    {
        SourcePos { line: pos.line, column: pos.column, path }
    }

    /// The file `path` as a whole: line and column are zero.
    pub fn file(path: &'static str) -> (r: SourcePos)
        ensures
            r == (SourcePos { line: 0, column: 0, path }),
    {
        SourcePos { line: 0, column: 0, path }
    }
}

} // verus!
