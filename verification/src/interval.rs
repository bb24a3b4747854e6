//! An ordered pair of scalar bounds, used both as the valid
//! hit-parameter range of a ray query and as a per-axis bounding range.

use vstd::prelude::*;

verus! {

/// A normalized scalar range: `min <= max` holds from construction on.
#[derive(Clone, Copy, Debug, PartialEq, Eq, Structural)]
pub struct Interval {
    pub min: i64,
    pub max: i64,
}

pub open spec fn min_i(a: int, b: int) -> int {
    if a <= b {
        a
    } else {
        b
    }
}

pub open spec fn max_i(a: int, b: int) -> int {
    if a >= b {
        a
    } else {
        b
    }
}

impl Interval {
    /// The invariant every constructed interval has.
    pub open spec fn wf(self) -> bool {
        self.min <= self.max
    }

    /// Containment is open at both ends: a value exactly on a bound is
    /// outside.
    pub open spec fn contains_s(self, num: int) -> bool {
        self.min < num && num < self.max
    }

    /// Builds the interval, normalizing the argument order.
    pub fn new(min: i64, max: i64) -> (r: Interval)
        ensures
            r.min == min_i(min as int, max as int),
            r.max == max_i(min as int, max as int),
            r.wf(),
    {
        if min <= max {
            Interval { min, max }
        } else {
            Interval { min: max, max: min }
        }
    }

    /// Open containment test.
    pub fn contains(&self, num: i64) -> (r: bool)
        ensures
            r == self.contains_s(num as int),
    {
        num > self.min && num < self.max
    }

    /// The union of the ranges of two intervals.
    pub fn outer(range_a: Interval, range_b: Interval) -> (r: Interval)
        requires
            range_a.wf(),
            range_b.wf(),
        ensures
            r.min == min_i(range_a.min as int, range_b.min as int),
            r.max == max_i(range_a.max as int, range_b.max as int),
            r.wf(),
    {
        Interval::new(
            if range_a.min <= range_b.min {
                range_a.min
            } else {
                range_b.min
            },
            if range_a.max >= range_b.max {
                range_a.max
            } else {
                range_b.max
            },
        )
    }

    /// The intersection of the ranges of two intervals, normalized: when
    /// the intervals are disjoint the two bounds cross and are swapped
    /// back into order by construction.
    pub fn inner(range_a: Interval, range_b: Interval) -> (r: Interval)
        ensures
            r.min == min_i(
                max_i(range_a.min as int, range_b.min as int),
                min_i(range_a.max as int, range_b.max as int),
            ),
            r.max == max_i(
                max_i(range_a.min as int, range_b.min as int),
                min_i(range_a.max as int, range_b.max as int),
            ),
            r.wf(),
    {
        Interval::new(
            if range_a.min >= range_b.min {
                range_a.min
            } else {
                range_b.min
            },
            if range_a.max <= range_b.max {
                range_a.max
            } else {
                range_b.max
            },
        )
    }

    /// Whether either bound of `range_b` lies strictly inside `range_a`.
    pub fn do_overlap(range_a: Interval, range_b: Interval) -> (r: bool)
        ensures
            r == (range_a.contains_s(range_b.min as int) || range_a.contains_s(
                range_b.max as int,
            )),
    {
        range_a.contains(range_b.min) || range_a.contains(range_b.max)
    }
}

} // verus!
