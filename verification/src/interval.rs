//! Closed fixed-point ranges, used to bound valid hit distances.

use vstd::prelude::*;

verus! {

#[derive(Clone, Copy, Debug, PartialEq, Eq, Structural)]
pub struct Interval {
    pub min: i64,
    pub max: i64,
}

pub open spec fn spec_contains(i: Interval, t: int) -> bool {
    (i.min as int) <= t && t <= (i.max as int)
}

/// Strict membership at both ends; this is what excludes self-intersection
/// at near-zero distances.
pub open spec fn spec_surrounds(i: Interval, t: int) -> bool {
    (i.min as int) < t && t < (i.max as int)
}

pub open spec fn spec_clamp(i: Interval, x: int) -> int {
    crate::fx::fxs_clamp(x, i.min as int, i.max as int)
}

impl Interval {
    pub fn new(min: i64, max: i64) -> (r: Interval)
        ensures
            r == (Interval { min, max }),
    {
        Interval { min, max }
    }

    pub fn contains(&self, t: i64) -> (r: bool)
        ensures
            r == spec_contains(*self, t as int),
    {
        self.min <= t && t <= self.max
    }

    pub fn surrounds(&self, t: i64) -> (r: bool)
        ensures
            r == spec_surrounds(*self, t as int),
    {
        self.min < t && t < self.max
    }

    pub fn clamp(&self, x: i64) -> (r: i64)
        ensures
            r as int == spec_clamp(*self, x as int),
    {
        crate::fx::fx_clamp(x, self.min, self.max)
    }
}

} // verus!
