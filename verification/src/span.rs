//! Byte-offset source locations.

use vstd::prelude::*;

verus! {

/// A half-open byte-offset range `[start, end)` into the source text.
/// Every token and every tree node carries exactly one `Span`.
#[derive(Clone, Copy, Debug, PartialEq, Eq, Structural)]
pub struct Span {
    pub start: usize,
    pub end: usize,
}

impl Span {
    /// A span is ordered and lies within a source of `len` bytes.
    pub open spec fn wf(self, len: nat) -> bool {
        self.start <= self.end && self.end <= len
    }

    pub fn new(start: usize, end: usize) -> (s: Span)
        ensures
            s.start == start,
            s.end == end,
    {
        Span { start, end }
    }
}

} // verus!
