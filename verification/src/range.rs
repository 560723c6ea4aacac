use vstd::prelude::*;

verus! {

/// A half-open interval `[start, end)` of character positions in a source
/// text.
#[derive(Clone, Copy, Debug, PartialEq, Eq, Structural)]
pub struct Range {
    pub start: usize,
    pub end: usize,
}

impl Range {
    /// The range from `start` up to, and not including, `end`.
    pub fn new(start: usize, end: usize) -> (r: Range)
        ensures
            r == (Range { start, end }),
    {
        Range { start, end }
    }

    /// Whether `inner` lies within this range and neither range is reversed.
    pub open spec fn encloses(self, inner: Range) -> bool {
        self.start <= inner.start && inner.start <= inner.end && inner.end <= self.end
    }
}

/// A value together with the range of source text it came from.
#[derive(Debug)]
pub struct Ranged<T>(pub T, pub Range);

impl<T: View> View for Ranged<T> {
    type V = (T::V, Range);

    open spec fn view(&self) -> (T::V, Range) {
        (self.0@, self.1)
    }
}

} // verus!
