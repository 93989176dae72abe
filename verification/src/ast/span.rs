use vstd::prelude::*;

verus! {

/// A half-open range `[start, end)` of character offsets into the source text.
#[derive(Debug, Clone, Copy, PartialEq, Eq, Structural)]
pub struct Span {
    pub start: usize,
    pub end: usize,
}

impl Span {
    /// Builds the span `[start, end)`.
    pub fn new(start: usize, end: usize) -> (span: Span)
        ensures
            span.start == start,
            span.end == end,
    {
        Span { start, end }
    }

    /// The empty span at offset zero.
    pub open spec fn empty_spec() -> Span {
        Span { start: 0, end: 0 }
    }

    /// The empty span at offset zero (the default span).
    pub fn empty() -> (span: Span)
        ensures
            span == Span::empty_spec(),
    {
        Span { start: 0, end: 0 }
    }
}

impl Default for Span {
    /// The empty span at offset zero.
    fn default() -> (span: Span)
        ensures
            span == Span::empty_spec(),
    {
        Span::empty()
    }
}

} // verus!
