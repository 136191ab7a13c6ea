//! Source locations.

use vstd::prelude::*;

verus! {

/// A position in a source text: the byte offset, and the line and column
/// (both counted from one) at which that byte stands.
#[derive(Debug, Clone, Copy, PartialEq, Eq, Structural)]
pub struct SourceCodePosition {
    pub byte: usize,
    pub line: usize,
    pub position: usize,
}

impl SourceCodePosition {
    /// The first position of a source text.
    pub fn start() -> (position: SourceCodePosition)
        ensures
            position == (SourceCodePosition { byte: 0, line: 1, position: 1 }),
    {
        SourceCodePosition { byte: 0, line: 1, position: 1 }
    }
}

/// A region of one source text, from `start` up to, not including, `end`.
#[derive(Debug, Clone, Copy, PartialEq, Eq, Structural)]
pub struct Span {
    pub start: SourceCodePosition,
    pub end: SourceCodePosition,
    pub code_source_index: usize,
}

impl Span {
    /// An empty span at the start of the first source text, for definitions
    /// that have no place in any source.
    pub fn dummy() -> (span: Span)
        ensures
            span == (Span {
                start: SourceCodePosition { byte: 0, line: 1, position: 1 },
                end: SourceCodePosition { byte: 0, line: 1, position: 1 },
                code_source_index: 0,
            }),
    {
        Span {
            start: SourceCodePosition::start(),
            end: SourceCodePosition::start(),
            code_source_index: 0,
        }
    }
}

} // verus!
