//! Spheres: ray intersection by the quadratic formula, on raw
//! (unscaled) integer products so the discriminant is exact.

use vstd::prelude::*;
use crate::fixed::{floor_div, sqrt_floor, div_floor_i128, isqrt_i128, SCALE};
use crate::interval::Interval;
use crate::vec3::{Vec3, V3s, v3_add, v3_sub, v3_scale, v3_div, vec3_of, COORD_LIMIT, DIR_LIMIT};
use crate::ray::{Ray, T_FAR};
use crate::bbox::BoundingBox;
use crate::hit_record::HitRecord;
use crate::material::Material;

verus! {

/// Dot product of raw components, without rescaling: the quadratic is
/// set up at the squared scale and only the final division returns to
/// fixed-point scale.
pub open spec fn raw_dot(a: V3s, b: V3s) -> int {
    a.x * b.x + a.y * b.y + a.z * b.z
}

/// The hit parameter of a ray against a sphere: the nearer root of the
/// quadratic if it lies in the range, else the farther one, else
/// nothing. A degenerate (zero) direction yields nothing.
pub open spec fn sphere_hit_t_s(center: V3s, radius: int, ray: Ray, range: Interval) -> Option<
    int,
> {
    let oc = v3_sub(ray.origin@, center);
    let d = ray.direction@;
    let qa = raw_dot(d, d);
    let qb = 2 * raw_dot(oc, d);
    let qc = raw_dot(oc, oc) - radius * radius;
    let disc = qb * qb - 4 * qa * qc;
    if qa == 0 || disc < 0 {
        None
    } else {
        let sq = sqrt_floor(disc);
        let t0 = floor_div((-qb - sq) * (SCALE as int), 2 * qa);
        let t1 = floor_div((-qb + sq) * (SCALE as int), 2 * qa);
        if range.contains_s(t0) {
            Some(t0)
        } else if range.contains_s(t1) {
            Some(t1)
        } else {
            None
        }
    }
}

/// The full hit record for a sphere: hit point on the ray, outward
/// normal `(p - c) / r`. Degenerate geometry resolves to no hit: a
/// zero radius, and a normal driven out of the direction bounds.
pub open spec fn sphere_hit_s(s: Sphere, ray: Ray, range: Interval) -> Option<HitRecord> {
    if s.radius <= 0 {
        Option::None
    } else {
        match sphere_hit_t_s(s.center@, s.radius as int, ray, range) {
        Option::None => Option::None,
        Option::Some(t) => {
            let p = v3_add(ray.origin@, v3_scale(t, ray.direction@));
            let n = v3_div(v3_sub(p, s.center@), s.radius as int);
            if !n.bounded(DIR_LIMIT as int) {
                Option::None
            } else {
                Option::Some(
                    HitRecord {
                        t_hit: t as i64,
                        hit_point: vec3_of(p),
                        direction: ray.direction,
                        normal: vec3_of(n),
                        material: s.material,
                    },
                )
            }
        },
        }
    }
}

/// The box `[c - r, c + r]` on every axis.
pub open spec fn sphere_bbox_s(s: Sphere) -> BoundingBox {
    BoundingBox {
        x: Interval { min: (s.center.x - s.radius) as i64, max: (s.center.x + s.radius) as i64 },
        y: Interval { min: (s.center.y - s.radius) as i64, max: (s.center.y + s.radius) as i64 },
        z: Interval { min: (s.center.z - s.radius) as i64, max: (s.center.z + s.radius) as i64 },
    }
}

#[derive(Clone, Copy, Debug)]
pub struct Sphere {
    pub center: Vec3,
    pub radius: i64,
    pub material: Material,
}

impl Sphere {
    pub open spec fn wf(self) -> bool {
        &&& self.center.bounded(COORD_LIMIT as int)
        &&& 0 <= self.radius <= COORD_LIMIT
        &&& self.material.wf()
    }

    pub fn new(center: Vec3, radius: i64, material: Material) -> (r: Sphere)
        requires
            center.bounded(COORD_LIMIT as int),
            0 <= radius <= COORD_LIMIT,
            material.wf(),
        ensures
            r.center == center,
            r.radius == radius,
            r.material == material,
            r.wf(),
    {
        Sphere { center, radius, material }
    }

    /// Solves the quadratic `|O + tD - c|^2 = r^2` and reports the
    /// closest root inside the range, with hit point and outward
    /// normal.
    pub fn hit(&self, ray: &Ray, range: Interval) -> (r: Option<HitRecord>)
        requires
            self.wf(),
            ray.wf(),
            -T_FAR <= range.min,
            range.max <= T_FAR,
        ensures
            r == sphere_hit_s(*self, *ray, range),
            r matches Some(h) ==> h.wf() && h.material.wf(),
    {
        if self.radius == 0 {
            // a point sphere is degenerate geometry: no hit, and no
            // division by the radius below
            return None;
        }
        let ox: i128 = ray.origin.x as i128;
        let oy: i128 = ray.origin.y as i128;
        let oz: i128 = ray.origin.z as i128;
        let ocx: i128 = ox - self.center.x as i128;
        let ocy: i128 = oy - self.center.y as i128;
        let ocz: i128 = oz - self.center.z as i128;
        let dx: i128 = ray.direction.x as i128;
        let dy: i128 = ray.direction.y as i128;
        let dz: i128 = ray.direction.z as i128;
        let rr: i128 = self.radius as i128;
        proof {
            assert(-0x2_0000_0000_0000int <= ocx as int * dx as int <= 0x2_0000_0000_0000int
                && -0x2_0000_0000_0000int <= ocy as int * dy as int <= 0x2_0000_0000_0000int
                && -0x2_0000_0000_0000int <= ocz as int * dz as int <= 0x2_0000_0000_0000int
                && 0 <= dx as int * dx as int <= 0x10_0000_0000int
                && 0 <= dy as int * dy as int <= 0x10_0000_0000int
                && 0 <= dz as int * dz as int <= 0x10_0000_0000int
                && 0 <= ocx as int * ocx as int <= 0x4000_0000_0000_0000int
                && 0 <= ocy as int * ocy as int <= 0x4000_0000_0000_0000int
                && 0 <= ocz as int * ocz as int <= 0x4000_0000_0000_0000int
                && 0 <= rr as int * rr as int <= 0x1000_0000_0000_0000int) by (nonlinear_arith)
                requires
                    -0x8000_0000int <= ocx as int <= 0x8000_0000int,
                    -0x8000_0000int <= ocy as int <= 0x8000_0000int,
                    -0x8000_0000int <= ocz as int <= 0x8000_0000int,
                    -0x4_0000int <= dx as int <= 0x4_0000int,
                    -0x4_0000int <= dy as int <= 0x4_0000int,
                    -0x4_0000int <= dz as int <= 0x4_0000int,
                    0 <= rr as int <= 0x4000_0000int,
            ;
        }
        let qa: i128 = dx * dx + dy * dy + dz * dz;
        let qb: i128 = 2 * (ocx * dx + ocy * dy + ocz * dz);
        let qc: i128 = (ocx * ocx + ocy * ocy + ocz * ocz) - rr * rr;
        proof {
            assert(-0x200_0000_0000_0000_0000_0000_0000int <= (4 * qa as int) * (qc as int)
                <= 0x200_0000_0000_0000_0000_0000_0000int && 0 <= qb as int * qb as int
                <= 0x100_0000_0000_0000_0000_0000_0000int) by (nonlinear_arith)
                requires
                    0 <= qa as int <= 0x30_0000_0000int,
                    -0x10_0000_0000_0000int <= qb as int <= 0x10_0000_0000_0000int,
                    -0x1_c000_0000_0000_0000int <= qc as int <= 0x1_c000_0000_0000_0000int,
            ;
        }
        let disc: i128 = qb * qb - 4 * qa * qc;
        if qa == 0 || disc < 0 {
            return None;
        }
        let sq: i128 = isqrt_i128(disc);
        proof {
            if sq as int > 0x800_0000_0000_0000 {
                assert((sq as int) * (sq as int) > 0x40_0000_0000_0000_0000_0000_0000_0000int)
                    by (nonlinear_arith)
                    requires
                        sq as int > 0x800_0000_0000_0000int,
                ;
            }
        }
        let t0: i128 = div_floor_i128((-qb - sq) * (SCALE as i128), 2 * qa);
        let t1: i128 = div_floor_i128((-qb + sq) * (SCALE as i128), 2 * qa);
        let t: i128 = if t0 > range.min as i128 && t0 < range.max as i128 {
            t0
        } else if t1 > range.min as i128 && t1 < range.max as i128 {
            t1
        } else {
            return None;
        };
        let t64: i64 = t as i64;
        self.record_at(ray, t64)
    }

    /// Builds the hit record at parameter `t`, guarding the normal.
    fn record_at(&self, ray: &Ray, t: i64) -> (r: Option<HitRecord>)
        requires
            self.wf(),
            self.radius > 0,
            ray.wf(),
            -T_FAR <= t <= T_FAR,
        ensures
            ({
                let p = v3_add(ray.origin@, v3_scale(t as int, ray.direction@));
                let n = v3_div(v3_sub(p, self.center@), self.radius as int);
                if !n.bounded(DIR_LIMIT as int) {
                    r is None
                } else {
                    r == Some(
                        HitRecord {
                            t_hit: t,
                            hit_point: vec3_of(p),
                            direction: ray.direction,
                            normal: vec3_of(n),
                            material: self.material,
                        },
                    )
                }
            }),
            r matches Some(h) ==> h.wf() && h.material.wf(),
    {
        let p: Vec3 = ray.at(t);
        let nx: i128 = div_floor_i128(
            ((p.x as i128) - (self.center.x as i128)) * (SCALE as i128),
            self.radius as i128,
        );
        let ny: i128 = div_floor_i128(
            ((p.y as i128) - (self.center.y as i128)) * (SCALE as i128),
            self.radius as i128,
        );
        let nz: i128 = div_floor_i128(
            ((p.z as i128) - (self.center.z as i128)) * (SCALE as i128),
            self.radius as i128,
        );
        if nx >= -DIR_LIMIT as i128 && nx <= DIR_LIMIT as i128 && ny >= -DIR_LIMIT as i128 && ny
            <= DIR_LIMIT as i128 && nz >= -DIR_LIMIT as i128 && nz <= DIR_LIMIT as i128 {
            let normal = Vec3 { x: nx as i64, y: ny as i64, z: nz as i64 };
            Some(
                HitRecord {
                    t_hit: t,
                    hit_point: p,
                    direction: ray.direction,
                    normal,
                    material: self.material,
                },
            )
        } else {
            None
        }
    }

    /// The axis-aligned box `[c - r, c + r]`.
    pub fn bounding_volume(&self) -> (r: BoundingBox)
        requires
            self.wf(),
        ensures
            r == sphere_bbox_s(*self),
            r.wf(),
    {
        BoundingBox {
            x: Interval { min: self.center.x - self.radius, max: self.center.x + self.radius },
            y: Interval { min: self.center.y - self.radius, max: self.center.y + self.radius },
            z: Interval { min: self.center.z - self.radius, max: self.center.z + self.radius },
        }
    }
}

} // verus!
