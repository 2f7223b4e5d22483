//! Bounded parameter ranges for accepting ray hits.

use vstd::prelude::*;

verus! {

/// A closed numeric range `[min, max]` of fixed-point values.
#[derive(Clone, Copy, PartialEq, Eq, Structural, Debug)]
pub struct Interval {
    pub min: i64,
    pub max: i64,
}

/// Open containment: strictly inside the range.
pub open spec fn spec_surrounds(i: Interval, x: int) -> bool {
    i.min < x && x < i.max
}

/// Closed containment.
pub open spec fn spec_contains(i: Interval, x: int) -> bool {
    i.min <= x && x <= i.max
}

impl Interval {
    pub fn new(min: i64, max: i64) -> (r: Interval)
        ensures
            r == (Interval { min, max }),
    {
        Interval { min, max }
    }

    pub fn surrounds(&self, x: i64) -> (r: bool)
        ensures
            r == spec_surrounds(*self, x as int),
    {
        self.min < x && x < self.max
    }

    pub fn contains(&self, x: i64) -> (r: bool)
        ensures
            r == spec_contains(*self, x as int),
    {
        self.min <= x && x <= self.max
    }
}

} // verus!
