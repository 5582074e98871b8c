//! A directional interval whose endpoints may be given in either order.

use crate::number::Numeric;
use crate::number::abs_diff;
use crate::number::abs_diff_val;
use vstd::prelude::*;

verus! {

/// An inclusive total range that can be used in reverse order.
#[derive(Debug, PartialEq, Clone, Hash, Eq)]
pub struct ReversibleRange<S: Numeric> {
    /// The starting point of the range. Does not need to be below `end`.
    pub start: S,

    /// The ending point of the range. Does not need to be above `start`.
    pub end: S,
}

impl<S: Numeric> ReversibleRange<S> {
    /// Whether `v` lies between the endpoints, in either order.
    pub open spec fn spec_contains(self, v: int) -> bool {
        (self.start.as_int() <= v <= self.end.as_int()) || (self.end.as_int() <= v
            <= self.start.as_int())
    }

    /// The distance between the endpoints, or zero when that distance is
    /// not representable in `S`.
    pub open spec fn spec_len(self) -> int {
        abs_diff_val(self.start.as_int(), self.end.as_int(), S::max_int())
    }

    /// Whether the range runs backwards (start above end).
    pub open spec fn spec_is_reversed(self) -> bool {
        self.start.as_int() > self.end.as_int()
    }

    /// Create a new range from a start and end value.
    /// The values do not need to be in order.
    pub fn new(from: S, to: S) -> (r: Self)
        ensures
            r.start == from,
            r.end == to,
    {
        Self { start: from, end: to }
    }

    /// Check if the range contains the given value, whichever way the
    /// range runs.
    pub fn contains(&self, value: S) -> (r: bool)
        ensures
            r == self.spec_contains(value.as_int()),
    {
        (self.start.lte(value) && value.lte(self.end)) || (self.end.lte(value) && value.lte(
            self.start,
        ))
    }

    /// Check if the range is empty: the start and end values are the same.
    pub fn is_empty(&self) -> (r: bool)
        ensures
            r == (self.start.as_int() == self.end.as_int()),
    {
        self.start.lte(self.end) && self.end.lte(self.start)
    }

    /// Get the length of the range, direction-independent.
    pub fn len(&self) -> (r: S)
        ensures
            r.as_int() == self.spec_len(),
    {
        abs_diff(self.start, self.end)
    }

    /// Check if the range is reversed: the start value is greater than
    /// the end value.
    pub fn is_reversed(&self) -> (r: bool)
        ensures
            r == self.spec_is_reversed(),
    {
        !self.start.lte(self.end)
    }
}

impl<S: Numeric> From<(S, S)> for ReversibleRange<S> {
    /// A pair is taken as (start, end); the values need not be in order.
    fn from(range: (S, S)) -> (r: Self)
        ensures
            r == (ReversibleRange { start: range.0, end: range.1 }),
    {
        Self { start: range.0, end: range.1 }
    }
}

impl<S: Numeric> vstd::std_specs::convert::FromSpecImpl<(S, S)> for ReversibleRange<S> {
    open spec fn obeys_from_spec() -> bool {
        true
    }

    open spec fn from_spec(range: (S, S)) -> Self {
        ReversibleRange { start: range.0, end: range.1 }
    }
}

impl<S: Numeric> From<[S; 2]> for ReversibleRange<S> {
    /// A pair is taken as [start, end]; the values need not be in order.
    fn from(range: [S; 2]) -> (r: Self)
        ensures
            r == (ReversibleRange { start: range@[0], end: range@[1] }),
    {
        Self { start: range[0], end: range[1] }
    }
}

impl<S: Numeric> vstd::std_specs::convert::FromSpecImpl<[S; 2]> for ReversibleRange<S> {
    open spec fn obeys_from_spec() -> bool {
        true
    }

    open spec fn from_spec(range: [S; 2]) -> Self {
        ReversibleRange { start: range@[0], end: range@[1] }
    }
}

} // verus!
