//! Source positions: every token and every parse error carries a span
//! pointing back into the source text.
use vstd::prelude::*;

verus! {

/// A position in the source text (1-based line, 0-based column in the
/// tokenizer's convention; the parser only carries these values through).
#[derive(Debug, Clone, Copy, PartialEq, Eq, Structural)]
pub struct Location {
    pub row: usize,
    pub col: usize,
}

/// A half-open region of the source text, from `start` to `end`.
#[derive(Debug, Clone, Copy, PartialEq, Eq, Structural)]
pub struct Span {
    pub start: Location,
    pub end: Location,
}

impl Span {
    /// The span used where no source position exists, e.g. on the
    /// end-of-file token that the parser synthesizes when the token
    /// vector is exhausted.
    pub fn zero() -> (s: Span)
        ensures
            s == Span::spec_zero(),
    {
        Span { start: Location { row: 0, col: 0 }, end: Location { row: 0, col: 0 } }
    }

    pub open spec fn spec_zero() -> Span {
        Span { start: Location { row: 0, col: 0 }, end: Location { row: 0, col: 0 } }
    }
}

} // verus!
