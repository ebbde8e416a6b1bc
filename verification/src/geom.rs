//! Byte ranges in source text and integer page coordinates.
//!
//! All geometry is carried in integer layout units; the presentation
//! surface converts to and from its own floating-point pixels.

use vstd::prelude::*;

verus! {

/// Largest page dimension (width or height) the layout model accepts.
pub const MAX_DIM: i64 = 0x4000_0000;

/// Deepest nesting of grouped sub-frames the layout model accepts.
pub const MAX_DEPTH: u32 = 32;

/// Largest magnitude of a click coordinate handed in by the
/// presentation surface.
pub const CLICK_BOUND: i64 = 0x8000_0000;

/// A contiguous region of source text, as a half-open byte interval.
#[derive(Clone, Copy, PartialEq, Eq, Structural, Debug)]
pub struct ByteRange {
    pub start: usize,
    pub end: usize,
}

impl ByteRange {
    /// The interval is ordered.
    pub open spec fn wf(self) -> bool {
        self.start <= self.end
    }

    /// Two ranges overlap when they share at least one byte; empty
    /// ranges overlap nothing.
    pub open spec fn spec_overlaps(self, other: ByteRange) -> bool {
        &&& self.start < other.end
        &&& other.start < self.end
        &&& self.start < self.end
        &&& other.start < other.end
    }

    /// `other` lies wholly inside `self`.
    pub open spec fn spec_contains_range(self, other: ByteRange) -> bool {
        self.start <= other.start && other.end <= self.end
    }

    pub fn new(start: usize, end: usize) -> (r: ByteRange)
        requires
            start <= end,
        ensures
            r == (ByteRange { start, end }),
    {
        ByteRange { start, end }
    }

    /// Interval-overlap test: any partial overlap counts.
    pub fn overlaps(&self, other: &ByteRange) -> (r: bool)
        ensures
            r == self.spec_overlaps(*other),
    {
        self.start < other.end && other.start < self.end && self.start < self.end && other.start
            < other.end
    }

    /// Containment test.
    pub fn contains_range(&self, other: &ByteRange) -> (r: bool)
        ensures
            r == self.spec_contains_range(*other),
    {
        self.start <= other.start && other.end <= self.end
    }
}

} // verus!
