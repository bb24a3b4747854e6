//! Rays: an origin point and a direction, normalized at construction.

use vstd::prelude::*;
use crate::fixed::{fmul64, lemma_fmul_s_mixed_bound};
use crate::vec3::{
    Vec3, V3s, v3_add, v3_scale, v3_dot, v3_unit, COORD_LIMIT, DIR_LIMIT, VEC_ABS_LIMIT,
};

verus! {

/// Far bound used as the stand-in for an unbounded hit-parameter range.
pub const T_FAR: i64 = 0x4000_0000_0000;

/// A parametric line `origin + t * direction`. The direction is
/// normalized at construction; all intersection math may also assume
/// the bounds of `wf`.
#[derive(Clone, Copy, Debug, PartialEq, Eq, Structural)]
pub struct Ray {
    pub origin: Vec3,
    pub direction: Vec3,
    pub t: i64,
}

/// What `Ray::new` builds from an origin and an (unnormalized)
/// direction value: the normalized direction, or the zero vector when
/// normalization degenerates (a squared length rounding to zero, or a
/// quotient outside the direction bounds).
pub open spec fn ray_new_s(origin: Vec3, direction: V3s) -> Ray {
    let u = v3_unit(direction);
    if v3_dot(direction, direction) != 0 && u.bounded(DIR_LIMIT as int) {
        Ray {
            origin,
            direction: Vec3 { x: u.x as i64, y: u.y as i64, z: u.z as i64 },
            t: 0,
        }
    } else {
        Ray { origin, direction: Vec3 { x: 0i64, y: 0i64, z: 0i64 }, t: 0 }
    }
}

impl Ray {
    /// The invariant every constructed ray has: a scene-bounded origin
    /// and a direction-bounded (normalized or degenerate) direction.
    pub open spec fn wf(self) -> bool {
        self.origin.bounded(COORD_LIMIT as int) && self.direction.bounded(DIR_LIMIT as int)
    }

    /// Builds a ray, normalizing the direction. A direction whose
    /// normalization degenerates (squared length rounding to zero, or a
    /// quotient outside the direction bounds) is replaced by the zero
    /// vector; intersection tests resolve such a ray to no hit.
    pub fn new(origin: Vec3, direction: Vec3) -> (r: Ray)
        requires
            origin.bounded(COORD_LIMIT as int),
            direction.bounded(VEC_ABS_LIMIT as int),
        ensures
            r == ray_new_s(origin, direction@),
            r.origin == origin,
            r.wf(),
    {
        let ls: i64 = direction.length_squared();
        let u: Vec3 = direction.unit();
        let ok: bool = ls != 0 && u.x >= -DIR_LIMIT && u.x <= DIR_LIMIT && u.y >= -DIR_LIMIT
            && u.y <= DIR_LIMIT && u.z >= -DIR_LIMIT && u.z <= DIR_LIMIT;
        if ok {
            Ray { origin, direction: u, t: 0 }
        } else {
            Ray { origin, direction: Vec3::zero(), t: 0 }
        }
    }

    /// The point `origin + t * direction`.
    pub fn at(&self, t: i64) -> (p: Vec3)
        requires
            self.wf(),
            -T_FAR <= t <= T_FAR,
        ensures
            p@ == v3_add(self.origin@, v3_scale(t as int, self.direction@)),
    {
        proof {
            lemma_fmul_s_mixed_bound(
                t as int,
                self.direction.x as int,
                T_FAR as int,
                DIR_LIMIT as int,
            );
            lemma_fmul_s_mixed_bound(
                t as int,
                self.direction.y as int,
                T_FAR as int,
                DIR_LIMIT as int,
            );
            lemma_fmul_s_mixed_bound(
                t as int,
                self.direction.z as int,
                T_FAR as int,
                DIR_LIMIT as int,
            );
        }
        Vec3 {
            x: self.origin.x + fmul64(t, self.direction.x),
            y: self.origin.y + fmul64(t, self.direction.y),
            z: self.origin.z + fmul64(t, self.direction.z),
        }
    }
}

} // verus!
