//! Three-component fixed-point vectors.
//!
//! The mathematical model of a vector is `V3s`, a triple of unbounded
//! integers; every executable operation is specified exactly against it.

use vstd::prelude::*;
use crate::fixed::{
    fdiv_s, fdiv64, fmul_s, fmul64, isqrt_i128, sqrt_floor, SCALE, lemma_fmul_s_abs_bound,
    lemma_fmul_s_square_nonneg, lemma_fdiv_s_abs_bound, lemma_square_ordered,
};

verus! {

/// Magnitude limit on scene coordinates (sphere centers, quad corners,
/// ray origins): about sixteen thousand world units.
pub const COORD_LIMIT: i64 = 0x4000_0000;

/// Magnitude limit on quad edge vectors, chosen so that cross and dot
/// products of edges stay well inside `i64`.
pub const EDGE_LIMIT: i64 = 0x400_0000;

/// Magnitude limit on ray direction components (four world units; a
/// normalized direction stays far below it).
pub const DIR_LIMIT: i64 = 0x40000;

/// Magnitude limit under which all vector operations are overflow-free.
pub const VEC_ABS_LIMIT: i64 = 0x40_0000_0000;

/// The mathematical value of a vector: a triple of unbounded integers.
pub ghost struct V3s {
    pub x: int,
    pub y: int,
    pub z: int,
}

/// The vector holding a mathematical triple (meaningful when each
/// component is in the `i64` range).
pub open spec fn vec3_of(v: V3s) -> Vec3 {
    Vec3 { x: v.x as i64, y: v.y as i64, z: v.z as i64 }
}

impl V3s {
    pub open spec fn bounded(self, m: int) -> bool {
        -m <= self.x <= m && -m <= self.y <= m && -m <= self.z <= m
    }
}

pub open spec fn v3_add(a: V3s, b: V3s) -> V3s {
    V3s { x: a.x + b.x, y: a.y + b.y, z: a.z + b.z }
}

pub open spec fn v3_sub(a: V3s, b: V3s) -> V3s {
    V3s { x: a.x - b.x, y: a.y - b.y, z: a.z - b.z }
}

pub open spec fn v3_neg(a: V3s) -> V3s {
    V3s { x: -a.x, y: -a.y, z: -a.z }
}

/// Componentwise fixed-point scaling.
pub open spec fn v3_scale(k: int, a: V3s) -> V3s {
    V3s { x: fmul_s(k, a.x), y: fmul_s(k, a.y), z: fmul_s(k, a.z) }
}

/// Componentwise fixed-point division.
pub open spec fn v3_div(a: V3s, k: int) -> V3s {
    V3s { x: fdiv_s(a.x, k), y: fdiv_s(a.y, k), z: fdiv_s(a.z, k) }
}

/// Fixed-point dot product.
pub open spec fn v3_dot(a: V3s, b: V3s) -> int {
    fmul_s(a.x, b.x) + fmul_s(a.y, b.y) + fmul_s(a.z, b.z)
}

/// Fixed-point cross product.
pub open spec fn v3_cross(a: V3s, b: V3s) -> V3s {
    V3s {
        x: fmul_s(a.y, b.z) - fmul_s(a.z, b.y),
        y: fmul_s(a.z, b.x) - fmul_s(a.x, b.z),
        z: fmul_s(a.x, b.y) - fmul_s(a.y, b.x),
    }
}

/// The fixed-point length: the square root of the squared length,
/// rescaled so the result is again a fixed-point scalar.
pub open spec fn v3_len(a: V3s) -> int {
    sqrt_floor(v3_dot(a, a) * (SCALE as int))
}

/// The normalized vector. A vector whose squared fixed-point length
/// rounds to zero is returned unchanged (it is degenerate: downstream
/// intersection math treats it as hitting nothing).
pub open spec fn v3_unit(a: V3s) -> V3s {
    if v3_dot(a, a) == 0 {
        a
    } else {
        v3_div(a, v3_len(a))
    }
}

/// A fixed-point vector; the view is the triple of its raw components.
#[derive(Clone, Copy, Debug, PartialEq, Eq, Structural)]
pub struct Vec3 {
    pub x: i64,
    pub y: i64,
    pub z: i64,
}

impl View for Vec3 {
    type V = V3s;

    open spec fn view(&self) -> V3s {
        V3s { x: self.x as int, y: self.y as int, z: self.z as int }
    }
}

impl Vec3 {
    pub fn new(x: i64, y: i64, z: i64) -> (r: Vec3)
        ensures
            r@ == (V3s { x: x as int, y: y as int, z: z as int }),
    {
        Vec3 { x, y, z }
    }

    pub fn zero() -> (r: Vec3)
        ensures
            r@ == (V3s { x: 0int, y: 0int, z: 0int }),
    {
        Vec3 { x: 0, y: 0, z: 0 }
    }

    /// The vector with one world unit in every component.
    pub fn ones() -> (r: Vec3)
        ensures
            r@ == (V3s { x: SCALE as int, y: SCALE as int, z: SCALE as int }),
    {
        Vec3 { x: SCALE, y: SCALE, z: SCALE }
    }

    pub fn x_hat() -> (r: Vec3)
        ensures
            r@ == (V3s { x: SCALE as int, y: 0int, z: 0int }),
    {
        Vec3 { x: SCALE, y: 0, z: 0 }
    }

    pub fn y_hat() -> (r: Vec3)
        ensures
            r@ == (V3s { x: 0int, y: SCALE as int, z: 0int }),
    {
        Vec3 { x: 0, y: SCALE, z: 0 }
    }

    pub fn z_hat() -> (r: Vec3)
        ensures
            r@ == (V3s { x: 0int, y: 0int, z: SCALE as int }),
    {
        Vec3 { x: 0, y: 0, z: SCALE }
    }

    pub open spec fn bounded(self, m: int) -> bool {
        self@.bounded(m)
    }

    pub fn x(&self) -> (r: i64)
        ensures
            r == self.x,
    {
        self.x
    }

    pub fn y(&self) -> (r: i64)
        ensures
            r == self.y,
    {
        self.y
    }

    pub fn z(&self) -> (r: i64)
        ensures
            r == self.z,
    {
        self.z
    }

    /// The sum of the three components.
    pub fn sum(&self) -> (r: i64)
        requires
            self.bounded(VEC_ABS_LIMIT as int),
        ensures
            r == self.x + self.y + self.z,
    {
        self.x + self.y + self.z
    }

    pub fn plus(self, rhs: Vec3) -> (r: Vec3)
        requires
            self.bounded(VEC_ABS_LIMIT as int),
            rhs.bounded(VEC_ABS_LIMIT as int),
        ensures
            r@ == v3_add(self@, rhs@),
    {
        Vec3 { x: self.x + rhs.x, y: self.y + rhs.y, z: self.z + rhs.z }
    }

    pub fn minus(self, rhs: Vec3) -> (r: Vec3)
        requires
            self.bounded(VEC_ABS_LIMIT as int),
            rhs.bounded(VEC_ABS_LIMIT as int),
        ensures
            r@ == v3_sub(self@, rhs@),
    {
        Vec3 { x: self.x - rhs.x, y: self.y - rhs.y, z: self.z - rhs.z }
    }

    pub fn neg(self) -> (r: Vec3)
        requires
            self.bounded(VEC_ABS_LIMIT as int),
        ensures
            r@ == v3_neg(self@),
    {
        Vec3 { x: -self.x, y: -self.y, z: -self.z }
    }

    /// Fixed-point scaling by `k`.
    pub fn times(self, k: i64) -> (r: Vec3)
        requires
            self.bounded(VEC_ABS_LIMIT as int),
            -VEC_ABS_LIMIT <= k <= VEC_ABS_LIMIT,
        ensures
            r@ == v3_scale(k as int, self@),
    {
        proof {
            lemma_fmul_s_abs_bound(k as int, self.x as int, VEC_ABS_LIMIT as int);
            lemma_fmul_s_abs_bound(k as int, self.y as int, VEC_ABS_LIMIT as int);
            lemma_fmul_s_abs_bound(k as int, self.z as int, VEC_ABS_LIMIT as int);
        }
        Vec3 { x: fmul64(k, self.x), y: fmul64(k, self.y), z: fmul64(k, self.z) }
    }

    /// Fixed-point division by the scalar `k`.
    pub fn div_by(self, k: i64) -> (r: Vec3)
        requires
            k != 0,
            self.bounded(VEC_ABS_LIMIT as int),
        ensures
            r@ == v3_div(self@, k as int),
    {
        proof {
            lemma_fdiv_s_abs_bound(self.x as int, k as int, VEC_ABS_LIMIT as int);
            lemma_fdiv_s_abs_bound(self.y as int, k as int, VEC_ABS_LIMIT as int);
            lemma_fdiv_s_abs_bound(self.z as int, k as int, VEC_ABS_LIMIT as int);
        }
        Vec3 { x: fdiv64(self.x, k), y: fdiv64(self.y, k), z: fdiv64(self.z, k) }
    }

    /// The squared fixed-point length.
    pub fn length_squared(&self) -> (r: i64)
        requires
            self.bounded(VEC_ABS_LIMIT as int),
        ensures
            r == v3_dot(self@, self@),
            r >= 0,
    {
        proof {
            lemma_fmul_s_square_nonneg(self.x as int);
            lemma_fmul_s_square_nonneg(self.y as int);
            lemma_fmul_s_square_nonneg(self.z as int);
        }
        dot(*self, *self)
    }

    /// The fixed-point length.
    pub fn length(&self) -> (r: i64)
        requires
            self.bounded(VEC_ABS_LIMIT as int),
        ensures
            r == v3_len(self@),
            r >= 0,
            (r as int) * (r as int) <= v3_dot(self@, self@) * (SCALE as int),
            v3_dot(self@, self@) * (SCALE as int) < (r as int + 1) * (r as int + 1),
    {
        let ls: i64 = self.length_squared();
        let n: i128 = (ls as i128) * (SCALE as i128);
        let r: i128 = isqrt_i128(n);
        proof {
            // The radicand is below 2^80, so the root is below 2^40.
            if r as int > 0x100_0000_0000 {
                assert((r as int) * (r as int) > 0x1_0000_0000_0000_0000_0000int)
                    by (nonlinear_arith)
                    requires
                        r as int > 0x100_0000_0000,
                ;
            }
        }
        r as i64
    }

    /// The normalized vector; degenerate input (squared length rounding
    /// to zero) is returned unchanged.
    pub fn unit(&self) -> (r: Vec3)
        requires
            self.bounded(VEC_ABS_LIMIT as int),
        ensures
            r@ == v3_unit(self@),
            r.bounded(0x40_0000_0000_0001int),
            self.bounded(SCALE as int) ==> r.bounded(0x1_0000_0001int),
    {
        let ls: i64 = self.length_squared();
        if ls == 0 {
            *self
        } else {
            let len: i64 = self.length();
            proof {
                // A positive squared length keeps the scaled radicand at
                // least SCALE * SCALE-sized, so the root is at least 256.
                assert(v3_dot(self@, self@) * (SCALE as int) >= SCALE as int) by (nonlinear_arith)
                    requires
                        v3_dot(self@, self@) >= 1,
                ;
                if len < 256 {
                    lemma_square_ordered(len as int + 1, 256);
                    assert(false);
                }
                lemma_fdiv_s_abs_bound(self.x as int, len as int, VEC_ABS_LIMIT as int);
                lemma_fdiv_s_abs_bound(self.y as int, len as int, VEC_ABS_LIMIT as int);
                lemma_fdiv_s_abs_bound(self.z as int, len as int, VEC_ABS_LIMIT as int);
                if self.bounded(SCALE as int) {
                    lemma_fdiv_s_abs_bound(self.x as int, len as int, SCALE as int);
                    lemma_fdiv_s_abs_bound(self.y as int, len as int, SCALE as int);
                    lemma_fdiv_s_abs_bound(self.z as int, len as int, SCALE as int);
                }
            }
            Vec3 { x: fdiv64(self.x, len), y: fdiv64(self.y, len), z: fdiv64(self.z, len) }
        }
    }

    /// A uniformly distributed point strictly inside the unit sphere,
    /// drawn by rejection; a bounded number of attempts keeps the
    /// function total, with a fixed interior point as the fallback.
    pub fn random_in_unit_sphere() -> (r: Vec3)
        ensures
            r.bounded(SCALE as int),
            v3_dot(r@, r@) < SCALE as int,
    {
        for i in 0..64u32 {
            let v = Vec3 {
                x: crate::rng::random_in_range(-SCALE + 1, SCALE),
                y: crate::rng::random_in_range(-SCALE + 1, SCALE),
                z: crate::rng::random_in_range(-SCALE + 1, SCALE),
            };
            let ls: i64 = v.length_squared();
            if ls < SCALE {
                return v;
            }
        }
        let half: i64 = SCALE / 2;
        let fallback = Vec3 { x: 0, y: 0, z: half };
        proof {
            assert((0int * 0) / (SCALE as int) == 0) by (nonlinear_arith);
            assert((32768int * 32768) / (SCALE as int) == 16384int) by (nonlinear_arith)
                requires
                    SCALE as int == 65536,
            ;
        }
        fallback
    }

    /// Whether every component already rounds to zero or less at the
    /// smallest representable positive threshold.
    pub fn is_near_zero(&self) -> (r: bool)
        ensures
            r == (self.x <= 0 && self.y <= 0 && self.z <= 0),
    {
        self.x <= 0 && self.y <= 0 && self.z <= 0
    }
}

/// Fixed-point dot product.
pub fn dot(a: Vec3, b: Vec3) -> (r: i64)
    requires
        a.bounded(VEC_ABS_LIMIT as int),
        b.bounded(VEC_ABS_LIMIT as int),
    ensures
        r == v3_dot(a@, b@),
{
    proof {
        lemma_fmul_s_abs_bound(a.x as int, b.x as int, VEC_ABS_LIMIT as int);
        lemma_fmul_s_abs_bound(a.y as int, b.y as int, VEC_ABS_LIMIT as int);
        lemma_fmul_s_abs_bound(a.z as int, b.z as int, VEC_ABS_LIMIT as int);
    }
    fmul64(a.x, b.x) + fmul64(a.y, b.y) + fmul64(a.z, b.z)
}

/// Fixed-point cross product.
pub fn cross(a: Vec3, b: Vec3) -> (r: Vec3)
    requires
        a.bounded(VEC_ABS_LIMIT as int),
        b.bounded(VEC_ABS_LIMIT as int),
    ensures
        r@ == v3_cross(a@, b@),
{
    proof {
        lemma_fmul_s_abs_bound(a.y as int, b.z as int, VEC_ABS_LIMIT as int);
        lemma_fmul_s_abs_bound(a.z as int, b.y as int, VEC_ABS_LIMIT as int);
        lemma_fmul_s_abs_bound(a.z as int, b.x as int, VEC_ABS_LIMIT as int);
        lemma_fmul_s_abs_bound(a.x as int, b.z as int, VEC_ABS_LIMIT as int);
        lemma_fmul_s_abs_bound(a.x as int, b.y as int, VEC_ABS_LIMIT as int);
        lemma_fmul_s_abs_bound(a.y as int, b.x as int, VEC_ABS_LIMIT as int);
    }
    Vec3 {
        x: fmul64(a.y, b.z) - fmul64(a.z, b.y),
        y: fmul64(a.z, b.x) - fmul64(a.x, b.z),
        z: fmul64(a.x, b.y) - fmul64(a.y, b.x),
    }
}

} // verus!
