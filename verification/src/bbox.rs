//! Axis-aligned bounding boxes and the ray-slab rejection test.
//!
//! The slab test narrows the query interval axis by axis and rejects as
//! soon as it empties. Rounding is outward (floor on the entering
//! plane, ceiling on the leaving one), so the computed slab interval
//! only ever grows with the box; the monotonicity lemmas below are what
//! the hierarchy's traversal argument rests on.

use vstd::prelude::*;
use crate::fixed::{
    fdiv_s, fdiv_ceil_s, fdiv64, fdiv_ceil64, lemma_fdiv_s_abs_bound, lemma_floor_div_ordered,
    SCALE,
};
use crate::interval::{Interval, min_i, max_i};
use crate::vec3::{Vec3, COORD_LIMIT, DIR_LIMIT};
use crate::ray::Ray;

verus! {

/// Magnitude limit on box bounds (scene coordinates plus a radius).
pub const BOX_LIMIT: i64 = 0x8000_0000;

/// Epsilon pad for flat primitives, so a degenerate axis still has a
/// nonzero slab (about 1e-4 world units).
pub const BOX_PAD: i64 = 7;

/// An axis-aligned box: one scalar range per axis.
#[derive(Clone, Copy, Debug, PartialEq, Eq, Structural)]
pub struct BoundingBox {
    pub x: Interval,
    pub y: Interval,
    pub z: Interval,
}

/// Componentwise containment of one box in another.
pub open spec fn contains_box(outer: BoundingBox, inner: BoundingBox) -> bool {
    &&& outer.x.min <= inner.x.min && inner.x.max <= outer.x.max
    &&& outer.y.min <= inner.y.min && inner.y.max <= outer.y.max
    &&& outer.z.min <= inner.z.min && inner.z.max <= outer.z.max
}

/// One axis of the slab test: the query interval `(tmin, tmax)`
/// narrowed to the parameter range in which the ray is between the two
/// axis planes, or `None` when that empties. A zero direction
/// component narrows nothing but requires the origin to lie between
/// the planes.
pub open spec fn axis_narrow_s(tmin: int, tmax: int, lo: int, hi: int, o: int, d: int) -> Option<
    (int, int),
> {
    if d == 0 {
        if lo <= o <= hi {
            Some((tmin, tmax))
        } else {
            None
        }
    } else {
        let t_enter = if d > 0 {
            fdiv_s(lo - o, d)
        } else {
            fdiv_s(hi - o, d)
        };
        let t_leave = if d > 0 {
            fdiv_ceil_s(hi - o, d)
        } else {
            fdiv_ceil_s(lo - o, d)
        };
        let t0 = max_i(tmin, t_enter);
        let t1 = min_i(tmax, t_leave);
        if t1 <= t0 {
            None
        } else {
            Some((t0, t1))
        }
    }
}

/// The full slab test over the three axes.
pub open spec fn slab_hit_s(bb: BoundingBox, ray: Ray, range: Interval) -> bool {
    match axis_narrow_s(
        range.min as int,
        range.max as int,
        bb.x.min as int,
        bb.x.max as int,
        ray.origin.x as int,
        ray.direction.x as int,
    ) {
        Option::None => false,
        Option::Some((t0, t1)) => match axis_narrow_s(
            t0,
            t1,
            bb.y.min as int,
            bb.y.max as int,
            ray.origin.y as int,
            ray.direction.y as int,
        ) {
            Option::None => false,
            Option::Some((u0, u1)) => axis_narrow_s(
                u0,
                u1,
                bb.z.min as int,
                bb.z.max as int,
                ray.origin.z as int,
                ray.direction.z as int,
            ) is Some,
        },
    }
}

/// The per-axis union of two boxes.
pub open spec fn surrounding_s(box_a: BoundingBox, box_b: BoundingBox) -> BoundingBox {
    BoundingBox {
        x: Interval {
            min: min_i(box_a.x.min as int, box_b.x.min as int) as i64,
            max: max_i(box_a.x.max as int, box_b.x.max as int) as i64,
        },
        y: Interval {
            min: min_i(box_a.y.min as int, box_b.y.min as int) as i64,
            max: max_i(box_a.y.max as int, box_b.y.max as int) as i64,
        },
        z: Interval {
            min: min_i(box_a.z.min as int, box_b.z.min as int) as i64,
            max: max_i(box_a.z.max as int, box_b.z.max as int) as i64,
        },
    }
}

impl BoundingBox {
    /// The invariant every constructed box has: ordered, bounded axis
    /// ranges.
    pub open spec fn wf(self) -> bool {
        &&& self.x.wf() && self.y.wf() && self.z.wf()
        &&& -BOX_LIMIT <= self.x.min && self.x.max <= BOX_LIMIT
        &&& -BOX_LIMIT <= self.y.min && self.y.max <= BOX_LIMIT
        &&& -BOX_LIMIT <= self.z.min && self.z.max <= BOX_LIMIT
    }

    pub fn x(&self) -> (r: Interval)
        ensures
            r == self.x,
    {
        self.x
    }

    pub fn y(&self) -> (r: Interval)
        ensures
            r == self.y,
    {
        self.y
    }

    pub fn z(&self) -> (r: Interval)
        ensures
            r == self.z,
    {
        self.z
    }

    /// Builds the box spanned by two opposite corners, in either order.
    pub fn new(corner_a: Vec3, corner_b: Vec3) -> (r: BoundingBox)
        ensures
            r.x.min == min_i(corner_a.x as int, corner_b.x as int),
            r.x.max == max_i(corner_a.x as int, corner_b.x as int),
            r.y.min == min_i(corner_a.y as int, corner_b.y as int),
            r.y.max == max_i(corner_a.y as int, corner_b.y as int),
            r.z.min == min_i(corner_a.z as int, corner_b.z as int),
            r.z.max == max_i(corner_a.z as int, corner_b.z as int),
            r.x.wf() && r.y.wf() && r.z.wf(),
            corner_a.bounded(BOX_LIMIT as int) && corner_b.bounded(BOX_LIMIT as int) ==> r.wf(),
    {
        BoundingBox {
            x: Interval::new(corner_a.x, corner_b.x),
            y: Interval::new(corner_a.y, corner_b.y),
            z: Interval::new(corner_a.z, corner_b.z),
        }
    }

    /// The smallest box containing both arguments: the per-axis union.
    pub fn surrounding(box_a: BoundingBox, box_b: BoundingBox) -> (r: BoundingBox)
        requires
            box_a.wf(),
            box_b.wf(),
        ensures
            r == surrounding_s(box_a, box_b),
            r.wf(),
            contains_box(r, box_a),
            contains_box(r, box_b),
            r.x.min == min_i(box_a.x.min as int, box_b.x.min as int),
            r.x.max == max_i(box_a.x.max as int, box_b.x.max as int),
            r.y.min == min_i(box_a.y.min as int, box_b.y.min as int),
            r.y.max == max_i(box_a.y.max as int, box_b.y.max as int),
            r.z.min == min_i(box_a.z.min as int, box_b.z.min as int),
            r.z.max == max_i(box_a.z.max as int, box_b.z.max as int),
    {
        BoundingBox {
            x: Interval::outer(box_a.x, box_b.x),
            y: Interval::outer(box_a.y, box_b.y),
            z: Interval::outer(box_a.z, box_b.z),
        }
    }

    /// The slab test: whether the ray can be inside the box anywhere in
    /// the query range. A pure rejection test, never a hit record.
    pub fn hit(&self, ray: &Ray, range: Interval) -> (r: bool)
        requires
            self.wf(),
            ray.wf(),
        ensures
            r == slab_hit_s(*self, *ray, range),
    {
        let step_x: Option<(i64, i64)> = axis_narrow(
            range.min,
            range.max,
            self.x.min,
            self.x.max,
            ray.origin.x,
            ray.direction.x,
        );
        match step_x {
            Option::None => false,
            Option::Some((t0, t1)) => {
                let step_y: Option<(i64, i64)> = axis_narrow(
                    t0,
                    t1,
                    self.y.min,
                    self.y.max,
                    ray.origin.y,
                    ray.direction.y,
                );
                match step_y {
                    Option::None => false,
                    Option::Some((u0, u1)) => {
                        let step_z: Option<(i64, i64)> = axis_narrow(
                            u0,
                            u1,
                            self.z.min,
                            self.z.max,
                            ray.origin.z,
                            ray.direction.z,
                        );
                        step_z.is_some()
                    },
                }
            },
        }
    }
}

/// Executable form of one slab axis.
fn axis_narrow(tmin: i64, tmax: i64, lo: i64, hi: i64, o: i64, d: i64) -> (r: Option<(i64, i64)>)
    requires
        -BOX_LIMIT <= lo <= BOX_LIMIT,
        -BOX_LIMIT <= hi <= BOX_LIMIT,
        -COORD_LIMIT <= o <= COORD_LIMIT,
        -DIR_LIMIT <= d <= DIR_LIMIT,
    ensures
        match r {
            Option::Some((a, b)) => axis_narrow_s(
                tmin as int,
                tmax as int,
                lo as int,
                hi as int,
                o as int,
                d as int,
            ) == Some((a as int, b as int)),
            Option::None => axis_narrow_s(
                tmin as int,
                tmax as int,
                lo as int,
                hi as int,
                o as int,
                d as int,
            ) is None,
        },
{
    if d == 0 {
        if lo <= o && o <= hi {
            Some((tmin, tmax))
        } else {
            None
        }
    } else {
        proof {
            lemma_fdiv_s_abs_bound((lo - o) as int, d as int, 0x1_8000_0000int);
            lemma_fdiv_s_abs_bound((hi - o) as int, d as int, 0x1_8000_0000int);
            lemma_fdiv_s_abs_bound(-(lo - o) as int, d as int, 0x1_8000_0000int);
            lemma_fdiv_s_abs_bound(-(hi - o) as int, d as int, 0x1_8000_0000int);
        }
        let t_enter: i64 = if d > 0 {
            fdiv64(lo - o, d)
        } else {
            fdiv64(hi - o, d)
        };
        let t_leave: i64 = if d > 0 {
            fdiv_ceil64(hi - o, d)
        } else {
            fdiv_ceil64(lo - o, d)
        };
        let t0: i64 = if tmin >= t_enter {
            tmin
        } else {
            t_enter
        };
        let t1: i64 = if tmax <= t_leave {
            tmax
        } else {
            t_leave
        };
        if t1 <= t0 {
            None
        } else {
            Some((t0, t1))
        }
    }
}

/// Widening the box and the starting interval widens (or preserves)
/// one axis step: a surviving interval survives and only grows.
pub proof fn lemma_axis_narrow_widens(
    tmin1: int,
    tmax1: int,
    tmin2: int,
    tmax2: int,
    lo1: int,
    hi1: int,
    lo2: int,
    hi2: int,
    o: int,
    d: int,
)
    requires
        tmin2 <= tmin1,
        tmax1 <= tmax2,
        lo2 <= lo1,
        hi1 <= hi2,
    ensures
        axis_narrow_s(tmin1, tmax1, lo1, hi1, o, d) matches Some((a1, b1)) ==> (axis_narrow_s(
            tmin2,
            tmax2,
            lo2,
            hi2,
            o,
            d,
        ) matches Some((a2, b2)) && a2 <= a1 && b1 <= b2),
{
    if axis_narrow_s(tmin1, tmax1, lo1, hi1, o, d) is Some {
        if d == 0 {
            assert(lo2 <= o <= hi2);
        } else if d > 0 {
            lemma_floor_div_ordered((lo2 - o) * (SCALE as int), (lo1 - o) * (SCALE as int), d);
            lemma_floor_div_ordered(-((hi2 - o) * (SCALE as int)), -((hi1 - o) * (SCALE as int)), d);
            assert((lo2 - o) * (SCALE as int) <= (lo1 - o) * (SCALE as int)) by (nonlinear_arith)
                requires
                    lo2 <= lo1,
                    SCALE as int > 0,
            ;
            assert(-((hi2 - o) * (SCALE as int)) <= -((hi1 - o) * (SCALE as int)))
                by (nonlinear_arith)
                requires
                    hi1 <= hi2,
                    SCALE as int > 0,
            ;
        } else {
            lemma_floor_div_ordered(
                -((hi2 - o) * (SCALE as int)),
                -((hi1 - o) * (SCALE as int)),
                -d,
            );
            lemma_floor_div_ordered((lo2 - o) * (SCALE as int), (lo1 - o) * (SCALE as int), -d);
            assert((lo2 - o) * (SCALE as int) <= (lo1 - o) * (SCALE as int)) by (nonlinear_arith)
                requires
                    lo2 <= lo1,
                    SCALE as int > 0,
            ;
            assert(-((hi2 - o) * (SCALE as int)) <= -((hi1 - o) * (SCALE as int)))
                by (nonlinear_arith)
                requires
                    hi1 <= hi2,
                    SCALE as int > 0,
            ;
        }
    }
}

/// A ray that passes the slab test of a box also passes it for any
/// containing box: growing the box only widens each axis interval.
pub proof fn lemma_slab_hit_mono(inner: BoundingBox, outer: BoundingBox, ray: Ray, range: Interval)
    requires
        contains_box(outer, inner),
    ensures
        slab_hit_s(inner, ray, range) ==> slab_hit_s(outer, ray, range),
{
    if slab_hit_s(inner, ray, range) {
        let sx1 = axis_narrow_s(
            range.min as int,
            range.max as int,
            inner.x.min as int,
            inner.x.max as int,
            ray.origin.x as int,
            ray.direction.x as int,
        );
        lemma_axis_narrow_widens(
            range.min as int,
            range.max as int,
            range.min as int,
            range.max as int,
            inner.x.min as int,
            inner.x.max as int,
            outer.x.min as int,
            outer.x.max as int,
            ray.origin.x as int,
            ray.direction.x as int,
        );
        let (a1, b1) = sx1.unwrap();
        let sx2 = axis_narrow_s(
            range.min as int,
            range.max as int,
            outer.x.min as int,
            outer.x.max as int,
            ray.origin.x as int,
            ray.direction.x as int,
        );
        let (a2, b2) = sx2.unwrap();
        lemma_axis_narrow_widens(
            a1,
            b1,
            a2,
            b2,
            inner.y.min as int,
            inner.y.max as int,
            outer.y.min as int,
            outer.y.max as int,
            ray.origin.y as int,
            ray.direction.y as int,
        );
        let sy1 = axis_narrow_s(
            a1,
            b1,
            inner.y.min as int,
            inner.y.max as int,
            ray.origin.y as int,
            ray.direction.y as int,
        );
        let (c1, e1) = sy1.unwrap();
        let sy2 = axis_narrow_s(
            a2,
            b2,
            outer.y.min as int,
            outer.y.max as int,
            ray.origin.y as int,
            ray.direction.y as int,
        );
        let (c2, e2) = sy2.unwrap();
        lemma_axis_narrow_widens(
            c1,
            e1,
            c2,
            e2,
            inner.z.min as int,
            inner.z.max as int,
            outer.z.min as int,
            outer.z.max as int,
            ray.origin.z as int,
            ray.direction.z as int,
        );
    }
}

} // verus!
