use vstd::prelude::*;

verus! {

/// Represents a location in the source code.
#[derive(Debug, Clone, Copy, PartialEq, Eq, Structural)]
pub struct Location {
    /// Line of this location (starting at one).
    pub line: usize,
    /// Column of this location (starting at one).
    pub column: usize,
}

impl Location {
    /// Create a new location given its `line` and `column`.
    pub fn new(line: usize, column: usize) -> (loc: Self)
        ensures
            loc == (Location { line, column }),
    {
        Location { line, column }
    }
}

/// Indicates the start and end locations of a construct in the source code.
#[derive(Debug, Clone, Copy, PartialEq, Eq, Structural)]
pub struct Span {
    /// Starting location of this construct.
    pub start: Location,
    /// Ending location of this construct.
    pub end: Location,
}

impl Span {
    /// The span that covers exactly the character at `line`, `column`.
    pub open spec fn spec_single(line: usize, column: usize) -> Span {
        Span { start: Location { line, column }, end: Location { line, column } }
    }

    /// Create a span that covers multiple characters.
    pub fn new(start: Location, end: Location) -> (span: Self)
        ensures
            span == (Span { start, end }),
    {
        Span { start, end }
    }

    /// Create a span that only covers one character. This is mostly used by the lexer.
    pub fn single(line: usize, column: usize) -> (span: Self)
        ensures
            span == Span::spec_single(line, column),
    {
        Span { start: Location::new(line, column), end: Location::new(line, column) }
    }
}

} // verus!
