//! Half-open ranges of scalars.
use vstd::prelude::*;
use crate::scalar::{lower, upper, Scalar};

verus! {

/// The half-open range `[start, end)`. A range whose `end` is not above its
/// `start` holds nothing.
#[derive(Clone, Copy, Debug, PartialEq, Eq, Structural)]
pub struct Interval {
    pub start: Scalar,
    pub end: Scalar,
}

impl Interval {
    /// Whether `t` lies in the range.
    pub open spec fn holds(self, t: Scalar) -> bool {
        self.start <= t < self.end
    }

    /// Whether the range holds nothing.
    pub open spec fn empty(self) -> bool {
        self.end <= self.start
    }

    /// Whether every scalar of `other` lies in `self`, bounds included.
    pub open spec fn covers(self, other: Interval) -> bool {
        self.start <= other.start && other.end <= self.end
    }

    /// The smallest range that covers both.
    pub open spec fn hull(self, other: Interval) -> Interval {
        Interval { start: lower(self.start, other.start), end: upper(self.end, other.end) }
    }

    pub fn new(start: Scalar, end: Scalar) -> (r: Interval)
        ensures
            r == (Interval { start, end }),
    {
        Interval { start, end }
    }

    pub fn start(&self) -> (r: Scalar)
        ensures
            r == self.start,
    {
        self.start
    }

    pub fn end(&self) -> (r: Scalar)
        ensures
            r == self.end,
    {
        self.end
    }

    pub fn set_start(&mut self, start: Scalar)
        ensures
            *final(self) == (Interval { start, end: old(self).end }),
    {
        self.start = start;
    }

    pub fn set_end(&mut self, end: Scalar)
        ensures
            *final(self) == (Interval { start: old(self).start, end }),
    {
        self.end = end;
    }

    /// Whether `t` lies in the range: at or above `start` and below `end`.
    pub fn contains(&self, t: Scalar) -> (r: bool)
        ensures
            r == self.holds(t),
    {
        self.start <= t && t < self.end
    }

    /// Whether the range holds nothing.
    pub fn is_empty(&self) -> (r: bool)
        ensures
            r == self.empty(),
    {
        self.end <= self.start
    }

    /// Widens the range until it covers `rhs` too.
    pub fn combine(&mut self, rhs: &Interval)
        ensures
            *final(self) == old(self).hull(*rhs),
    {
        self.start = crate::scalar::min(self.start, rhs.start);
        self.end = crate::scalar::max(self.end, rhs.end);
    }

    /// The smallest range that covers both `self` and `rhs`.
    pub fn combined(&self, rhs: &Interval) -> (r: Interval)
        ensures
            r == self.hull(*rhs),
    {
        Interval {
            start: crate::scalar::min(self.start, rhs.start),
            end: crate::scalar::max(self.end, rhs.end),
        }
    }
}

impl Default for Interval {
    /// The empty range at zero.
    fn default() -> (r: Interval)
        ensures
            r == (Interval { start: 0, end: 0 }),
    {
        Interval { start: 0, end: 0 }
    }
}

} // verus!
