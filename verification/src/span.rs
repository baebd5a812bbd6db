//! Byte-range spans into the source buffer.

use vstd::prelude::*;

verus! {

/// A half-open byte range `[start, end)` into the source buffer.
///
/// Every span produced by the lexer or carried by an AST node satisfies
/// `start <= end <= len(source)`.
#[derive(Debug, Clone, Copy, Default, PartialEq, Eq, Structural)]
pub struct Span {
    pub start: u32,
    pub end: u32,
}

/// A span is well formed for a source buffer when it is a valid half-open
/// byte range into it.
pub open spec fn span_wf(s: Span, src: Seq<u8>) -> bool {
    s.start <= s.end && s.end <= src.len()
}

impl Span {
    /// The span as a standard half-open index range, for slicing the source.
    pub fn as_range(&self) -> (r: core::ops::Range<usize>)
        ensures
            r.start == self.start as usize,
            r.end == self.end as usize,
    {
        (self.start as usize)..(self.end as usize)
    }
}

} // verus!
