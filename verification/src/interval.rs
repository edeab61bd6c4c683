//! Closed ranges of fixed-point values, used to bound the acceptable ray
//! parameter of an intersection and to clamp color channels.

use vstd::prelude::*;
use crate::fixed::T_LIMIT;

verus! {

/// A numeric interval with a minimum and maximum value.  Constructing
/// `min > max` deliberately yields an empty interval.
#[derive(Debug, Clone, Copy, PartialEq, Eq, Structural)]
pub struct Interval {
    pub min: i64,
    pub max: i64,
}

/// `x` saturated into `[i.min, i.max]`.
pub open spec fn spec_clamp(i: Interval, x: int) -> int {
    if x < i.min {
        i.min as int
    } else if x > i.max {
        i.max as int
    } else {
        x
    }
}

impl Interval {
    /// Creates a new empty interval: the minimum sits above every admissible
    /// ray parameter and the maximum below, so it contains nothing.
    pub fn new_empty() -> (r: Self)
        ensures
            r == (Interval { min: T_LIMIT, max: ((-T_LIMIT) as i64) }),
    {
        Self { min: T_LIMIT, max: -T_LIMIT }
    }

    /// Creates the interval of every admissible ray parameter, standing in
    /// for the unbounded range.
    pub fn universe() -> (r: Self)
        ensures
            r == (Interval { min: ((-T_LIMIT) as i64), max: T_LIMIT }),
    {
        Self { min: -T_LIMIT, max: T_LIMIT }
    }

    /// Creates a new interval with the given minimum and maximum values.
    pub fn new(min: i64, max: i64) -> (r: Self)
        ensures
            r == (Interval { min: min, max: max }),
    {
        Self { min, max }
    }

    /// Whether the interval contains `x`, inclusive on both bounds.
    pub fn contains(&self, x: i64) -> (r: bool)
        ensures
            r == (self.min <= x && x <= self.max),
    {
        self.min <= x && x <= self.max
    }

    /// Whether the interval strictly surrounds `x`, exclusive on both bounds.
    pub fn surrounds(&self, x: i64) -> (r: bool)
        ensures
            r == (self.min < x && x < self.max),
    {
        self.min < x && x < self.max
    }

    /// Saturates `x` into `[min, max]`.
    pub fn clamp(&self, x: i64) -> (r: i64)
        ensures
            r as int == spec_clamp(*self, x as int),
    {
        if x < self.min {
            self.min
        } else if x > self.max {
            self.max
        } else {
            x
        }
    }
}

} // verus!
