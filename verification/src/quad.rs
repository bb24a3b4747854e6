//! Quads (a corner with two edge vectors) and cuboids built from six
//! of them.
//!
//! The plane data (unit normal, offset, dual basis) is computed once at
//! construction; intersection solves the ray-plane equation and tests
//! the planar coordinates of the hit point against the open unit
//! square.

use vstd::prelude::*;
use crate::fixed::{
    fdiv_s, fdiv64, div_floor_i128, SCALE, lemma_fmul_s_abs_bound, lemma_fmul_s_mixed_bound,
    lemma_fdiv_s_abs_bound,
};
use crate::interval::{Interval, min_i, max_i};
use crate::vec3::{
    Vec3, v3_add, v3_sub, v3_scale, v3_div, v3_dot, v3_cross, v3_unit, vec3_of, dot, cross,
    COORD_LIMIT, EDGE_LIMIT, DIR_LIMIT,
};
use crate::ray::{Ray, T_FAR};
use crate::bbox::{BoundingBox, BOX_PAD};
use crate::hit_record::{HitRecord, closer_opt};
use crate::material::Material;

verus! {

/// Magnitude limit on the dual-basis vector `w = n / (n . n)`.
pub const W_LIMIT: i64 = 0x40_0000_0000_0000;

/// Magnitude limit on cuboid corners (half the edge limit, so corner
/// differences are valid edges).
pub const CUBE_LIMIT: i64 = 0x200_0000;

/// A quad with its derived plane data. A degenerate edge pair (cross
/// product rounding to zero, or a normal outside the direction bounds)
/// zeroes the plane data, and such a quad never reports a hit.
#[derive(Clone, Copy, Debug)]
pub struct Quad {
    pub corner: Vec3,
    pub u: Vec3,
    pub v: Vec3,
    pub w: Vec3,
    pub normal: Vec3,
    pub d: i64,
    pub material: Material,
}

/// What `Quad::new` builds: the plane normal `n = u x v` normalized,
/// the plane offset, and the dual basis `w = n / (n . n)`.
pub open spec fn quad_new_s(corner: Vec3, u: Vec3, v: Vec3, material: Material) -> Quad {
    let n = v3_cross(u@, v@);
    let nn = v3_dot(n, n);
    let un = v3_unit(n);
    if nn == 0 || !un.bounded(DIR_LIMIT as int) {
        Quad {
            corner,
            u,
            v,
            w: Vec3 { x: 0i64, y: 0i64, z: 0i64 },
            normal: Vec3 { x: 0i64, y: 0i64, z: 0i64 },
            d: 0i64,
            material,
        }
    } else {
        let normal = vec3_of(un);
        Quad {
            corner,
            u,
            v,
            w: vec3_of(v3_div(n, nn)),
            normal,
            d: v3_dot(normal@, corner@) as i64,
            material,
        }
    }
}

/// The hit record of a ray against a quad: the ray-plane parameter if
/// the plane is not parallel to the ray and the parameter is in range,
/// accepted when the planar coordinates (alpha, beta) of the hit point
/// lie in the open unit square.
pub open spec fn quad_hit_s(q: Quad, ray: Ray, range: Interval) -> Option<HitRecord> {
    let denom = v3_dot(q.normal@, ray.direction@);
    if denom == 0 {
        Option::None
    } else {
        let t = fdiv_s(q.d - v3_dot(q.normal@, ray.origin@), denom);
        if !range.contains_s(t) {
            Option::None
        } else {
            let p = v3_add(ray.origin@, v3_scale(t, ray.direction@));
            let local = v3_sub(p, q.corner@);
            let alpha = v3_dot(q.w@, v3_cross(local, q.v@));
            let beta = v3_dot(q.w@, v3_cross(q.u@, local));
            if 0 < alpha && alpha < SCALE as int && 0 < beta && beta < SCALE as int {
                Option::Some(
                    HitRecord {
                        t_hit: t as i64,
                        hit_point: vec3_of(p),
                        direction: ray.direction,
                        normal: q.normal,
                        material: q.material,
                    },
                )
            } else {
                Option::None
            }
        }
    }
}

/// The union of the two diagonal corner-pair boxes, with any flat axis
/// padded to nonzero thickness.
pub open spec fn pad_axis_s(i: Interval) -> Interval {
    if i.min == i.max {
        Interval { min: (i.min - BOX_PAD) as i64, max: (i.max + BOX_PAD) as i64 }
    } else {
        i
    }
}

/// `v3_dot(w, v3_cross(a, b))`, computed wide so no intermediate is
/// forced through `i64`.
fn dot_cross_wide(w: Vec3, a: Vec3, b: Vec3) -> (r: i128)
    requires
        w.bounded(W_LIMIT as int),
        a.bounded(0x4_0000_0000_0000int),
        b.bounded(0x4_0000_0000_0000int),
        a.bounded(0x800_0000int) || b.bounded(0x800_0000int),
    ensures
        r == v3_dot(w@, v3_cross(a@, b@)),
{
    proof {
        if a.bounded(0x800_0000int) {
            assert(-0x2000_0000_0000_0000_0000int <= a.y as int * b.z as int
                <= 0x2000_0000_0000_0000_0000int && -0x2000_0000_0000_0000_0000int <= a.z as int
                * b.y as int <= 0x2000_0000_0000_0000_0000int && -0x2000_0000_0000_0000_0000int
                <= a.z as int * b.x as int <= 0x2000_0000_0000_0000_0000int
                && -0x2000_0000_0000_0000_0000int <= a.x as int * b.z as int
                <= 0x2000_0000_0000_0000_0000int && -0x2000_0000_0000_0000_0000int <= a.x as int
                * b.y as int <= 0x2000_0000_0000_0000_0000int && -0x2000_0000_0000_0000_0000int
                <= a.y as int * b.x as int <= 0x2000_0000_0000_0000_0000int) by (nonlinear_arith)
                requires
                    a.bounded(0x800_0000int),
                    b.bounded(0x4_0000_0000_0000int),
            ;
        } else {
            assert(-0x2000_0000_0000_0000_0000int <= a.y as int * b.z as int
                <= 0x2000_0000_0000_0000_0000int && -0x2000_0000_0000_0000_0000int <= a.z as int
                * b.y as int <= 0x2000_0000_0000_0000_0000int && -0x2000_0000_0000_0000_0000int
                <= a.z as int * b.x as int <= 0x2000_0000_0000_0000_0000int
                && -0x2000_0000_0000_0000_0000int <= a.x as int * b.z as int
                <= 0x2000_0000_0000_0000_0000int && -0x2000_0000_0000_0000_0000int <= a.x as int
                * b.y as int <= 0x2000_0000_0000_0000_0000int && -0x2000_0000_0000_0000_0000int
                <= a.y as int * b.x as int <= 0x2000_0000_0000_0000_0000int) by (nonlinear_arith)
                requires
                    a.bounded(0x4_0000_0000_0000int),
                    b.bounded(0x800_0000int),
            ;
        }
    }
    let cx: i128 = div_floor_i128((a.y as i128) * (b.z as i128), SCALE as i128) - div_floor_i128(
        (a.z as i128) * (b.y as i128),
        SCALE as i128,
    );
    let cy: i128 = div_floor_i128((a.z as i128) * (b.x as i128), SCALE as i128) - div_floor_i128(
        (a.x as i128) * (b.z as i128),
        SCALE as i128,
    );
    let cz: i128 = div_floor_i128((a.x as i128) * (b.y as i128), SCALE as i128) - div_floor_i128(
        (a.y as i128) * (b.x as i128),
        SCALE as i128,
    );
    proof {
        crate::fixed::lemma_floor_div_abs_bound(
            a.y as int * b.z as int,
            SCALE as int,
            0x2000_0000_0000_0000_0000int,
        );
        crate::fixed::lemma_floor_div_abs_bound(
            a.z as int * b.y as int,
            SCALE as int,
            0x2000_0000_0000_0000_0000int,
        );
        crate::fixed::lemma_floor_div_abs_bound(
            a.z as int * b.x as int,
            SCALE as int,
            0x2000_0000_0000_0000_0000int,
        );
        crate::fixed::lemma_floor_div_abs_bound(
            a.x as int * b.z as int,
            SCALE as int,
            0x2000_0000_0000_0000_0000int,
        );
        crate::fixed::lemma_floor_div_abs_bound(
            a.x as int * b.y as int,
            SCALE as int,
            0x2000_0000_0000_0000_0000int,
        );
        crate::fixed::lemma_floor_div_abs_bound(
            a.y as int * b.x as int,
            SCALE as int,
            0x2000_0000_0000_0000_0000int,
        );
        assert(-0x200_0000_0000_0000_0000_0000_0000_0000int <= w.x as int * cx as int
            <= 0x200_0000_0000_0000_0000_0000_0000_0000int && -0x200_0000_0000_0000_0000_0000_0000_0000int
            <= w.y as int * cy as int <= 0x200_0000_0000_0000_0000_0000_0000_0000int
            && -0x200_0000_0000_0000_0000_0000_0000_0000int <= w.z as int * cz as int
            <= 0x200_0000_0000_0000_0000_0000_0000_0000int) by (nonlinear_arith)
            requires
                w.bounded(0x40_0000_0000_0000int),
                -0x4001_0000_0000_0000int <= cx as int <= 0x4001_0000_0000_0000int,
                -0x4001_0000_0000_0000int <= cy as int <= 0x4001_0000_0000_0000int,
                -0x4001_0000_0000_0000int <= cz as int <= 0x4001_0000_0000_0000int,
        ;
    }
    let tx: i128 = div_floor_i128((w.x as i128) * cx, SCALE as i128);
    let ty: i128 = div_floor_i128((w.y as i128) * cy, SCALE as i128);
    let tz: i128 = div_floor_i128((w.z as i128) * cz, SCALE as i128);
    proof {
        crate::fixed::lemma_floor_div_abs_bound(
            w.x as int * cx as int,
            SCALE as int,
            0x200_0000_0000_0000_0000_0000_0000_0000int,
        );
        crate::fixed::lemma_floor_div_abs_bound(
            w.y as int * cy as int,
            SCALE as int,
            0x200_0000_0000_0000_0000_0000_0000_0000int,
        );
        crate::fixed::lemma_floor_div_abs_bound(
            w.z as int * cz as int,
            SCALE as int,
            0x200_0000_0000_0000_0000_0000_0000_0000int,
        );
    }
    tx + ty + tz
}

impl Quad {
    /// Bounds the stored plane data obeys from construction on.
    pub open spec fn wf(self) -> bool {
        &&& self.corner.bounded(COORD_LIMIT as int)
        &&& self.u.bounded(EDGE_LIMIT as int)
        &&& self.v.bounded(EDGE_LIMIT as int)
        &&& self.normal.bounded(DIR_LIMIT as int)
        &&& self.w.bounded(W_LIMIT as int)
        &&& -0x10_0000_0000 <= self.d <= 0x10_0000_0000
        &&& self.material.wf()
    }

    pub fn new(corner: Vec3, u: Vec3, v: Vec3, material: Material) -> (r: Quad)
        requires
            corner.bounded(COORD_LIMIT as int),
            u.bounded(EDGE_LIMIT as int),
            v.bounded(EDGE_LIMIT as int),
            material.wf(),
        ensures
            r == quad_new_s(corner, u, v, material),
            r.wf(),
    {
        proof {
            lemma_fmul_s_abs_bound(u.y as int, v.z as int, EDGE_LIMIT as int);
            lemma_fmul_s_abs_bound(u.z as int, v.y as int, EDGE_LIMIT as int);
            lemma_fmul_s_abs_bound(u.z as int, v.x as int, EDGE_LIMIT as int);
            lemma_fmul_s_abs_bound(u.x as int, v.z as int, EDGE_LIMIT as int);
            lemma_fmul_s_abs_bound(u.x as int, v.y as int, EDGE_LIMIT as int);
            lemma_fmul_s_abs_bound(u.y as int, v.x as int, EDGE_LIMIT as int);
        }
        let n: Vec3 = cross(u, v);
        let nn: i64 = n.length_squared();
        let un: Vec3 = n.unit();
        let ok: bool = nn != 0 && un.x >= -DIR_LIMIT && un.x <= DIR_LIMIT && un.y >= -DIR_LIMIT
            && un.y <= DIR_LIMIT && un.z >= -DIR_LIMIT && un.z <= DIR_LIMIT;
        if ok {
            proof {
                lemma_fdiv_s_abs_bound(n.x as int, nn as int, 0x20_0000_0010int);
                lemma_fdiv_s_abs_bound(n.y as int, nn as int, 0x20_0000_0010int);
                lemma_fdiv_s_abs_bound(n.z as int, nn as int, 0x20_0000_0010int);
                lemma_fmul_s_mixed_bound(un.x as int, corner.x as int, DIR_LIMIT as int, COORD_LIMIT as int);
                lemma_fmul_s_mixed_bound(un.y as int, corner.y as int, DIR_LIMIT as int, COORD_LIMIT as int);
                lemma_fmul_s_mixed_bound(un.z as int, corner.z as int, DIR_LIMIT as int, COORD_LIMIT as int);
            }
            let w: Vec3 = Vec3 {
                x: fdiv64(n.x, nn),
                y: fdiv64(n.y, nn),
                z: fdiv64(n.z, nn),
            };
            let d: i64 = dot(un, corner);
            Quad { corner, u, v, w, normal: un, d, material }
        } else {
            Quad {
                corner,
                u,
                v,
                w: Vec3::zero(),
                normal: Vec3::zero(),
                d: 0,
                material,
            }
        }
    }

    /// Ray-plane intersection, accepted inside the open unit square of
    /// planar coordinates.
    pub fn hit(&self, ray: &Ray, range: Interval) -> (r: Option<HitRecord>)
        requires
            self.wf(),
            ray.wf(),
            -T_FAR <= range.min,
            range.max <= T_FAR,
        ensures
            r == quad_hit_s(*self, *ray, range),
            r matches Some(h) ==> h.wf() && h.material.wf(),
    {
        proof {
            lemma_fmul_s_abs_bound(self.normal.x as int, ray.direction.x as int, DIR_LIMIT as int);
            lemma_fmul_s_abs_bound(self.normal.y as int, ray.direction.y as int, DIR_LIMIT as int);
            lemma_fmul_s_abs_bound(self.normal.z as int, ray.direction.z as int, DIR_LIMIT as int);
            lemma_fmul_s_mixed_bound(
                self.normal.x as int,
                ray.origin.x as int,
                DIR_LIMIT as int,
                COORD_LIMIT as int,
            );
            lemma_fmul_s_mixed_bound(
                self.normal.y as int,
                ray.origin.y as int,
                DIR_LIMIT as int,
                COORD_LIMIT as int,
            );
            lemma_fmul_s_mixed_bound(
                self.normal.z as int,
                ray.origin.z as int,
                DIR_LIMIT as int,
                COORD_LIMIT as int,
            );
        }
        let denom: i64 = dot(self.normal, ray.direction);
        if denom == 0 {
            return None;
        }
        let num: i64 = self.d - dot(self.normal, ray.origin);
        proof {
            lemma_fdiv_s_abs_bound(num as int, denom as int, 0x40_0000_0000int);
        }
        let t: i64 = fdiv64(num, denom);
        if !range.contains(t) {
            return None;
        }
        let p: Vec3 = ray.at(t);
        proof {
            lemma_fmul_s_mixed_bound(
                t as int,
                ray.direction.x as int,
                T_FAR as int,
                DIR_LIMIT as int,
            );
            lemma_fmul_s_mixed_bound(
                t as int,
                ray.direction.y as int,
                T_FAR as int,
                DIR_LIMIT as int,
            );
            lemma_fmul_s_mixed_bound(
                t as int,
                ray.direction.z as int,
                T_FAR as int,
                DIR_LIMIT as int,
            );
        }
        let local: Vec3 = Vec3 {
            x: p.x - self.corner.x,
            y: p.y - self.corner.y,
            z: p.z - self.corner.z,
        };
        let alpha: i128 = dot_cross_wide(self.w, local, self.v);
        let beta: i128 = dot_cross_wide(self.w, self.u, local);
        if alpha > 0 && alpha < SCALE as i128 && beta > 0 && beta < SCALE as i128 {
            Some(
                HitRecord {
                    t_hit: t,
                    hit_point: p,
                    direction: ray.direction,
                    normal: self.normal,
                    material: self.material,
                },
            )
        } else {
            None
        }
    }

    /// The union of the two diagonal corner-pair boxes, flat axes
    /// padded.
    pub fn bounding_volume(&self) -> (r: BoundingBox)
        requires
            self.wf(),
        ensures
            r == quad_bbox_s(*self),
            r.wf(),
    {
        let far: Vec3 = Vec3 {
            x: self.corner.x + self.u.x + self.v.x,
            y: self.corner.y + self.u.y + self.v.y,
            z: self.corner.z + self.u.z + self.v.z,
        };
        let cu: Vec3 = Vec3 {
            x: self.corner.x + self.u.x,
            y: self.corner.y + self.u.y,
            z: self.corner.z + self.u.z,
        };
        let cv: Vec3 = Vec3 {
            x: self.corner.x + self.v.x,
            y: self.corner.y + self.v.y,
            z: self.corner.z + self.v.z,
        };
        let box_a: BoundingBox = BoundingBox::new(self.corner, far);
        let box_b: BoundingBox = BoundingBox::new(cu, cv);
        let merged: BoundingBox = BoundingBox::surrounding(box_a, box_b);
        BoundingBox { x: pad_axis(merged.x), y: pad_axis(merged.y), z: pad_axis(merged.z) }
    }
}

/// Pads a flat axis range to nonzero thickness.
fn pad_axis(i: Interval) -> (r: Interval)
    requires
        i.wf(),
        -0x7FFF_FFFF_FFFF_0000 <= i.min,
        i.max <= 0x7FFF_FFFF_FFFF_0000,
    ensures
        r == pad_axis_s(i),
        r.wf(),
{
    if i.min == i.max {
        Interval { min: i.min - BOX_PAD, max: i.max + BOX_PAD }
    } else {
        i
    }
}

/// The padded union of the quad's corner-pair boxes.
pub open spec fn quad_bbox_s(q: Quad) -> BoundingBox {
    let far = Vec3 {
        x: (q.corner.x + q.u.x + q.v.x) as i64,
        y: (q.corner.y + q.u.y + q.v.y) as i64,
        z: (q.corner.z + q.u.z + q.v.z) as i64,
    };
    let cu = Vec3 {
        x: (q.corner.x + q.u.x) as i64,
        y: (q.corner.y + q.u.y) as i64,
        z: (q.corner.z + q.u.z) as i64,
    };
    let cv = Vec3 {
        x: (q.corner.x + q.v.x) as i64,
        y: (q.corner.y + q.v.y) as i64,
        z: (q.corner.z + q.v.z) as i64,
    };
    BoundingBox {
        x: pad_axis_s(
            Interval {
                min: min_i(
                    min_i(q.corner.x as int, far.x as int),
                    min_i(cu.x as int, cv.x as int),
                ) as i64,
                max: max_i(
                    max_i(q.corner.x as int, far.x as int),
                    max_i(cu.x as int, cv.x as int),
                ) as i64,
            },
        ),
        y: pad_axis_s(
            Interval {
                min: min_i(
                    min_i(q.corner.y as int, far.y as int),
                    min_i(cu.y as int, cv.y as int),
                ) as i64,
                max: max_i(
                    max_i(q.corner.y as int, far.y as int),
                    max_i(cu.y as int, cv.y as int),
                ) as i64,
            },
        ),
        z: pad_axis_s(
            Interval {
                min: min_i(
                    min_i(q.corner.z as int, far.z as int),
                    min_i(cu.z as int, cv.z as int),
                ) as i64,
                max: max_i(
                    max_i(q.corner.z as int, far.z as int),
                    max_i(cu.z as int, cv.z as int),
                ) as i64,
            },
        ),
    }
}

/// The closest hit over a sequence of quads, scanned in order.
pub open spec fn quads_hit_s(qs: Seq<Quad>, ray: Ray, range: Interval) -> Option<HitRecord>
    decreases qs.len(),
{
    if qs.len() == 0 {
        Option::None
    } else {
        closer_opt(quads_hit_s(qs.drop_last(), ray, range), quad_hit_s(qs.last(), ray, range))
    }
}

/// An axis-aligned box: six quads over two opposite corners.
#[derive(Clone, Copy, Debug)]
pub struct Cuboid {
    pub sides: [Quad; 6],
    pub p0: Vec3,
    pub p1: Vec3,
}

impl Cuboid {
    pub open spec fn wf(self) -> bool {
        &&& self.p0.bounded(CUBE_LIMIT as int)
        &&& self.p1.bounded(CUBE_LIMIT as int)
        &&& forall|i: int| 0 <= i < 6 ==> (#[trigger] self.sides@[i]).wf()
    }

    /// Six faces: three sharing `p0`, three sharing `p1` with edges
    /// negated.
    pub fn new(p0: Vec3, p1: Vec3, material: Material) -> (r: Cuboid)
        requires
            p0.bounded(CUBE_LIMIT as int),
            p1.bounded(CUBE_LIMIT as int),
            material.wf(),
        ensures
            r.wf(),
            r.p0 == p0,
            r.p1 == p1,
            r.sides@.len() == 6,
            ({
                let xd = Vec3 { x: (p1.x - p0.x) as i64, y: 0i64, z: 0i64 };
                let yd = Vec3 { x: 0i64, y: (p1.y - p0.y) as i64, z: 0i64 };
                let zd = Vec3 { x: 0i64, y: 0i64, z: (p1.z - p0.z) as i64 };
                let xn = Vec3 { x: (p0.x - p1.x) as i64, y: 0i64, z: 0i64 };
                let yn = Vec3 { x: 0i64, y: (p0.y - p1.y) as i64, z: 0i64 };
                let zn = Vec3 { x: 0i64, y: 0i64, z: (p0.z - p1.z) as i64 };
                &&& r.sides@[0] == quad_new_s(p0, xd, yd, material)
                &&& r.sides@[1] == quad_new_s(p0, xd, zd, material)
                &&& r.sides@[2] == quad_new_s(p0, yd, zd, material)
                &&& r.sides@[3] == quad_new_s(p1, xn, yn, material)
                &&& r.sides@[4] == quad_new_s(p1, xn, zn, material)
                &&& r.sides@[5] == quad_new_s(p1, yn, zn, material)
            }),
    {
        let xd = Vec3 { x: p1.x - p0.x, y: 0, z: 0 };
        let yd = Vec3 { x: 0, y: p1.y - p0.y, z: 0 };
        let zd = Vec3 { x: 0, y: 0, z: p1.z - p0.z };
        let xn = Vec3 { x: p0.x - p1.x, y: 0, z: 0 };
        let yn = Vec3 { x: 0, y: p0.y - p1.y, z: 0 };
        let zn = Vec3 { x: 0, y: 0, z: p0.z - p1.z };
        let sides: [Quad; 6] = [
            Quad::new(p0, xd, yd, material),
            Quad::new(p0, xd, zd, material),
            Quad::new(p0, yd, zd, material),
            Quad::new(p1, xn, yn, material),
            Quad::new(p1, xn, zn, material),
            Quad::new(p1, yn, zn, material),
        ];
        Cuboid { sides, p0, p1 }
    }

    /// Tries all six faces and keeps the closest hit.
    pub fn hit(&self, ray: &Ray, range: Interval) -> (r: Option<HitRecord>)
        requires
            self.wf(),
            ray.wf(),
            -T_FAR <= range.min,
            range.max <= T_FAR,
        ensures
            r == quads_hit_s(self.sides@, *ray, range),
            r matches Some(h) ==> h.wf() && h.material.wf(),
    {
        let mut closest: Option<HitRecord> = None;
        let mut i: usize = 0;
        while i < 6
            invariant
                0 <= i <= 6,
                self.wf(),
                ray.wf(),
                -T_FAR <= range.min,
                range.max <= T_FAR,
                closest == quads_hit_s(self.sides@.subrange(0, i as int), *ray, range),
                closest matches Some(h) ==> h.wf() && h.material.wf(),
            decreases 6 - i,
        {
            let hit_record: Option<HitRecord> = self.sides[i].hit(ray, range);
            closest = match (closest, hit_record) {
                (None, _) => hit_record,
                (Some(_), None) => closest,
                (Some(c), Some(h)) => if h.t_hit < c.t_hit {
                    hit_record
                } else {
                    closest
                },
            };
            proof {
                assert(self.sides@.subrange(0, i + 1 as int).drop_last() =~= self.sides@.subrange(
                    0,
                    i as int,
                ));
                assert(self.sides@.subrange(0, i + 1 as int).last() == self.sides@[i as int]);
            }
            i = i + 1;
        }
        proof {
            assert(self.sides@.subrange(0, 6) =~= self.sides@);
        }
        closest
    }

    /// The corner box, padded.
    pub fn bounding_volume(&self) -> (r: BoundingBox)
        requires
            self.wf(),
        ensures
            r == cuboid_bbox_s(*self),
            r.wf(),
    {
        let lo = Vec3 { x: self.p0.x - BOX_PAD, y: self.p0.y - BOX_PAD, z: self.p0.z - BOX_PAD };
        let hi = Vec3 { x: self.p1.x + BOX_PAD, y: self.p1.y + BOX_PAD, z: self.p1.z + BOX_PAD };
        BoundingBox::new(lo, hi)
    }
}

/// The padded corner box of a cuboid.
pub open spec fn cuboid_bbox_s(c: Cuboid) -> BoundingBox {
    let lo = Vec3 {
        x: (c.p0.x - BOX_PAD) as i64,
        y: (c.p0.y - BOX_PAD) as i64,
        z: (c.p0.z - BOX_PAD) as i64,
    };
    let hi = Vec3 {
        x: (c.p1.x + BOX_PAD) as i64,
        y: (c.p1.y + BOX_PAD) as i64,
        z: (c.p1.z + BOX_PAD) as i64,
    };
    BoundingBox {
        x: Interval {
            min: min_i(lo.x as int, hi.x as int) as i64,
            max: max_i(lo.x as int, hi.x as int) as i64,
        },
        y: Interval {
            min: min_i(lo.y as int, hi.y as int) as i64,
            max: max_i(lo.y as int, hi.y as int) as i64,
        },
        z: Interval {
            min: min_i(lo.z as int, hi.z as int) as i64,
            max: max_i(lo.z as int, hi.z as int) as i64,
        },
    }
}

} // verus!
