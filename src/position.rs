use vstd::prelude::*;

verus! {

/// A coordinate in a buffer: a zero-based line and a zero-based character
/// offset within that line.
#[derive(Clone, Copy, Debug, PartialEq, Eq, Structural)]
pub struct Position {
    pub line: usize,
    pub offset: usize,
}

/// The way a token motion searches.
#[derive(Clone, Copy, Debug, PartialEq, Eq, Structural)]
pub enum Direction {
    Forward,
    Backward,
}

impl View for Position {
    type V = (nat, nat);

    open spec fn view(&self) -> (nat, nat) {
        (self.line as nat, self.offset as nat)
    }
}

/// The start of every buffer.
pub open spec fn origin() -> (nat, nat) {
    (0, 0)
}

/// Strict order of positions: by line, then by offset.
pub open spec fn before(a: (nat, nat), b: (nat, nat)) -> bool {
    a.0 < b.0 || (a.0 == b.0 && a.1 < b.1)
}

/// Non-strict order of positions.
pub open spec fn at_or_before(a: (nat, nat), b: (nat, nat)) -> bool {
    before(a, b) || a == b
}

impl Position {
    pub fn new(line: usize, offset: usize) -> (r: Position)
        ensures
            r.line == line,
            r.offset == offset,
    {
        Position { line, offset }
    }

    /// Whether `self` comes strictly after `other`.
    pub fn is_after(&self, other: &Position) -> (r: bool)
        ensures
            r == before(other@, self@),
    {
        self.line > other.line || (self.line == other.line && self.offset > other.offset)
    }

    /// Whether `self` comes at or after `other`.
    pub fn is_at_or_after(&self, other: &Position) -> (r: bool)
        ensures
            r == at_or_before(other@, self@),
    {
        self.line > other.line || (self.line == other.line && self.offset >= other.offset)
    }
}

} // verus!
