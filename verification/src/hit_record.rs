//! The data contract between geometry and materials: the hit record a
//! primitive produces, and the scatter record a material answers with.

use vstd::prelude::*;
use crate::vec3::{Vec3, v3_dot, COORD_LIMIT, DIR_LIMIT, VEC_ABS_LIMIT};
use crate::color::{Color, C3s};
use crate::ray::{Ray, ray_new_s};
use crate::material::Material;

verus! {

/// One intersection: the hit parameter, the point and surface frame,
/// and the material at the surface. Produced and consumed within a
/// single intersection-then-shade step.
#[derive(Clone, Copy, Debug)]
pub struct HitRecord {
    pub t_hit: i64,
    pub hit_point: Vec3,
    pub direction: Vec3,
    pub normal: Vec3,
    pub material: Material,
}

impl HitRecord {
    /// Bounds every record produced by a well-formed primitive obeys.
    pub open spec fn wf(self) -> bool {
        self.direction.bounded(DIR_LIMIT as int) && self.normal.bounded(DIR_LIMIT as int)
    }

    pub fn new(
        t_hit: i64,
        hit_point: Vec3,
        direction: Vec3,
        normal: Vec3,
        material: Material,
    ) -> (r: HitRecord)
        ensures
            r.t_hit == t_hit,
            r.hit_point == hit_point,
            r.direction == direction,
            r.normal == normal,
            r.material == material,
    {
        HitRecord { t_hit, hit_point, direction, normal, material }
    }

    /// Whether the ray strikes the front side: its direction runs
    /// against the stored normal.
    pub fn is_front_face(&self, ray: &Ray) -> (r: bool)
        requires
            ray.wf(),
            self.wf(),
        ensures
            r == (v3_dot(ray.direction@, self.normal@) < 0),
    {
        crate::vec3::dot(ray.direction, self.normal) < 0
    }

    pub fn is_closer_than(self, other: HitRecord) -> (r: bool)
        ensures
            r == (self.t_hit < other.t_hit),
    {
        self.t_hit < other.t_hit
    }
}

/// The closer of a running closest hit and a new candidate: the
/// candidate wins only when strictly closer, so ties keep the earlier
/// hit.
pub open spec fn closer_opt(cur: Option<HitRecord>, new_hit: Option<HitRecord>) -> Option<
    HitRecord,
> {
    match (cur, new_hit) {
        (Option::None, _) => new_hit,
        (Option::Some(_), Option::None) => cur,
        (Option::Some(c), Option::Some(h)) => if h.t_hit < c.t_hit {
            new_hit
        } else {
            cur
        },
    }
}

/// A material's answer to a hit: parallel arrays of weighted candidate
/// outgoing rays, plus emitted radiance. Weights need not sum to one;
/// the integrator treats each pair independently.
pub struct ScatterRecord {
    pub hit_point: Vec3,
    pub probabilities: Vec<i64>,
    pub scattered: Vec<Ray>,
    pub emitted: Color,
}

impl ScatterRecord {
    /// Parallel arrays, well-formed outgoing rays, and a scene-bounded
    /// origin for them.
    pub open spec fn wf(self) -> bool {
        &&& self.probabilities@.len() == self.scattered@.len()
        &&& self.hit_point.bounded(COORD_LIMIT as int)
        &&& forall|i: int|
            0 <= i < self.scattered@.len() ==> (#[trigger] self.scattered@[i]).wf()
    }

    pub fn new(hit_point: Vec3) -> (r: ScatterRecord)
        requires
            hit_point.bounded(COORD_LIMIT as int),
        ensures
            r.wf(),
            r.hit_point == hit_point,
            r.probabilities@ == Seq::<i64>::empty(),
            r.scattered@ == Seq::<Ray>::empty(),
            r.emitted@ == (C3s { r: 0int, g: 0int, b: 0int }),
    {
        ScatterRecord {
            hit_point,
            probabilities: Vec::new(),
            scattered: Vec::new(),
            emitted: Color::black(),
        }
    }

    /// Appends one weighted candidate direction; the stored ray starts
    /// at the hit point, normalized by construction.
    pub fn push(self, p: i64, direction: Vec3) -> (r: ScatterRecord)
        requires
            self.wf(),
            direction.bounded(VEC_ABS_LIMIT as int),
        ensures
            r.wf(),
            r.hit_point == self.hit_point,
            r.emitted == self.emitted,
            r.probabilities@ == self.probabilities@.push(p),
            r.scattered@ == self.scattered@.push(ray_new_s(self.hit_point, direction@)),
    {
        let ray = Ray::new(self.hit_point, direction);
        let mut probabilities = self.probabilities;
        let mut scattered = self.scattered;
        probabilities.push(p);
        scattered.push(ray);
        ScatterRecord { hit_point: self.hit_point, probabilities, scattered, emitted: self.emitted }
    }

    /// Sets the emitted radiance.
    pub fn with_emitted(self, emitted: Color) -> (r: ScatterRecord)
        ensures
            r.hit_point == self.hit_point,
            r.probabilities == self.probabilities,
            r.scattered == self.scattered,
            r.emitted == emitted,
            self.wf() ==> r.wf(),
    {
        ScatterRecord {
            hit_point: self.hit_point,
            probabilities: self.probabilities,
            scattered: self.scattered,
            emitted,
        }
    }
}

} // verus!
