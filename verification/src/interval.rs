//! Closed scalar ranges, used to bound valid ray parameters.

use vstd::prelude::*;
use crate::utils::INFINITY;

verus! {

/// Mathematical model of an interval: unbounded endpoints.
pub struct IntervalV {
    pub min: int,
    pub max: int,
}

pub open spec fn interval_contains(i: IntervalV, x: int) -> bool {
    i.min <= x && x <= i.max
}

pub open spec fn interval_surrounds(i: IntervalV, x: int) -> bool {
    i.min < x && x < i.max
}

pub open spec fn interval_clamp(i: IntervalV, x: int) -> int {
    if x < i.min {
        i.min
    } else if x > i.max {
        i.max
    } else {
        x
    }
}

/// A closed range `[min, max]` of fixed-point scalars. An empty range has
/// `min > max` and contains nothing.
#[derive(Clone, Copy, Debug, PartialEq, Eq, Structural)]
pub struct Interval {
    pub min: i64,
    pub max: i64,
}

impl View for Interval {
    type V = IntervalV;

    open spec fn view(&self) -> IntervalV {
        IntervalV { min: self.min as int, max: self.max as int }
    }
}

impl Interval {
    /// The empty interval `[+infinity, -infinity]`.
    pub fn default() -> (r: Interval)
        ensures
            r.min == INFINITY,
            r.max == -INFINITY,
    {
        Interval { min: INFINITY, max: -INFINITY }
    }

    pub fn new(min: i64, max: i64) -> (r: Interval)
        ensures
            r.min == min,
            r.max == max,
    {
        Interval { min, max }
    }

    pub fn contains(&self, x: i64) -> (r: bool)
        ensures
            r == interval_contains(self@, x as int),
    {
        self.min <= x && x <= self.max
    }

    pub fn surrounds(&self, x: i64) -> (r: bool)
        ensures
            r == interval_surrounds(self@, x as int),
    {
        self.min < x && x < self.max
    }

    pub fn clamp(&self, x: i64) -> (r: i64)
        ensures
            r as int == interval_clamp(self@, x as int),
    {
        if x < self.min {
            return self.min;
        } else if x > self.max {
            return self.max;
        }
        x
    }
}

/// Clamping twice is the same as clamping once.
pub proof fn lemma_clamp_idempotent(i: IntervalV, x: int)
    requires
        i.min <= i.max,
    ensures
        interval_clamp(i, interval_clamp(i, x)) == interval_clamp(i, x),
{
}

/// A non-empty interval contains both of its endpoints.
pub proof fn lemma_contains_endpoints(i: IntervalV)
    requires
        i.min <= i.max,
    ensures
        interval_contains(i, i.min),
        interval_contains(i, i.max),
{
}

/// No interval strictly surrounds its own endpoints.
pub proof fn lemma_surrounds_excludes_endpoints(i: IntervalV)
    ensures
        !interval_surrounds(i, i.min),
        !interval_surrounds(i, i.max),
{
}

} // verus!
