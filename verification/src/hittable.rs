//! The hittable capability: anything a ray can intersect that also has
//! a bounding volume. Implemented by each primitive, by the closed sum
//! of primitives, and by flat collections; the hierarchy node
//! implements it too, so scenes compose recursively.

use vstd::prelude::*;
use crate::interval::Interval;
use crate::ray::{Ray, T_FAR};
use crate::bbox::{BoundingBox, surrounding_s};
use crate::hit_record::{HitRecord, closer_opt};
use crate::sphere::{Sphere, sphere_hit_s, sphere_bbox_s};
use crate::quad::{Quad, Cuboid, quad_hit_s, quad_bbox_s, quads_hit_s, cuboid_bbox_s};

verus! {

/// A capability, not a concrete type: ray intersection inside an open
/// parameter range, and a bounding volume. `bv_pre` guards the types
/// whose volume is undefined (an empty collection).
pub trait Hit: Sized {
    spec fn wf_h(&self) -> bool;

    spec fn hit_spec(&self, ray: Ray, range: Interval) -> Option<HitRecord>;

    spec fn bv_pre(&self) -> bool;

    spec fn bbox_spec(&self) -> BoundingBox;

    /// The closest intersection strictly inside the range, or nothing.
    fn hit(&self, ray: &Ray, range: Interval) -> (r: Option<HitRecord>)
        requires
            self.wf_h(),
            ray.wf(),
            -T_FAR <= range.min,
            range.max <= T_FAR,
        ensures
            r == self.hit_spec(*ray, range),
            r matches Some(h) ==> h.wf() && h.material.wf(),
    ;

    /// The axis-aligned volume containing the geometry.
    fn bounding_volume(&self) -> (r: BoundingBox)
        requires
            self.wf_h(),
            self.bv_pre(),
        ensures
            r == self.bbox_spec(),
            r.wf(),
    ;
}

impl Hit for Sphere {
    open spec fn wf_h(&self) -> bool {
        self.wf()
    }

    open spec fn hit_spec(&self, ray: Ray, range: Interval) -> Option<HitRecord> {
        sphere_hit_s(*self, ray, range)
    }

    open spec fn bv_pre(&self) -> bool {
        true
    }

    open spec fn bbox_spec(&self) -> BoundingBox {
        sphere_bbox_s(*self)
    }

    fn hit(&self, ray: &Ray, range: Interval) -> (r: Option<HitRecord>) {
        Sphere::hit(self, ray, range)
    }

    fn bounding_volume(&self) -> (r: BoundingBox) {
        Sphere::bounding_volume(self)
    }
}

impl Hit for Quad {
    open spec fn wf_h(&self) -> bool {
        self.wf()
    }

    open spec fn hit_spec(&self, ray: Ray, range: Interval) -> Option<HitRecord> {
        quad_hit_s(*self, ray, range)
    }

    open spec fn bv_pre(&self) -> bool {
        true
    }

    open spec fn bbox_spec(&self) -> BoundingBox {
        quad_bbox_s(*self)
    }

    fn hit(&self, ray: &Ray, range: Interval) -> (r: Option<HitRecord>) {
        Quad::hit(self, ray, range)
    }

    fn bounding_volume(&self) -> (r: BoundingBox) {
        Quad::bounding_volume(self)
    }
}

impl Hit for Cuboid {
    open spec fn wf_h(&self) -> bool {
        self.wf()
    }

    open spec fn hit_spec(&self, ray: Ray, range: Interval) -> Option<HitRecord> {
        quads_hit_s(self.sides@, ray, range)
    }

    open spec fn bv_pre(&self) -> bool {
        true
    }

    open spec fn bbox_spec(&self) -> BoundingBox {
        cuboid_bbox_s(*self)
    }

    fn hit(&self, ray: &Ray, range: Interval) -> (r: Option<HitRecord>) {
        Cuboid::hit(self, ray, range)
    }

    fn bounding_volume(&self) -> (r: BoundingBox) {
        Cuboid::bounding_volume(self)
    }
}

/// The closed set of leaf geometry.
#[derive(Clone, Copy, Debug)]
pub enum Primitive {
    Sphere(Sphere),
    Quad(Quad),
    Cuboid(Cuboid),
}

/// Validity of a primitive's parameters.
pub open spec fn prim_wf(p: Primitive) -> bool {
    match p {
        Primitive::Sphere(s) => s.wf(),
        Primitive::Quad(q) => q.wf(),
        Primitive::Cuboid(c) => c.wf(),
    }
}

/// A primitive's intersection result.
pub open spec fn prim_hit_s(p: Primitive, ray: Ray, range: Interval) -> Option<HitRecord> {
    match p {
        Primitive::Sphere(s) => sphere_hit_s(s, ray, range),
        Primitive::Quad(q) => quad_hit_s(q, ray, range),
        Primitive::Cuboid(c) => quads_hit_s(c.sides@, ray, range),
    }
}

/// A primitive's bounding volume.
pub open spec fn prim_bbox_s(p: Primitive) -> BoundingBox {
    match p {
        Primitive::Sphere(s) => sphere_bbox_s(s),
        Primitive::Quad(q) => quad_bbox_s(q),
        Primitive::Cuboid(c) => cuboid_bbox_s(c),
    }
}

impl Hit for Primitive {
    open spec fn wf_h(&self) -> bool {
        prim_wf(*self)
    }

    open spec fn hit_spec(&self, ray: Ray, range: Interval) -> Option<HitRecord> {
        prim_hit_s(*self, ray, range)
    }

    open spec fn bv_pre(&self) -> bool {
        true
    }

    open spec fn bbox_spec(&self) -> BoundingBox {
        prim_bbox_s(*self)
    }

    fn hit(&self, ray: &Ray, range: Interval) -> (r: Option<HitRecord>) {
        match self {
            Primitive::Sphere(s) => Sphere::hit(s, ray, range),
            Primitive::Quad(q) => Quad::hit(q, ray, range),
            Primitive::Cuboid(c) => Cuboid::hit(c, ray, range),
        }
    }

    fn bounding_volume(&self) -> (r: BoundingBox) {
        match self {
            Primitive::Sphere(s) => Sphere::bounding_volume(s),
            Primitive::Quad(q) => Quad::bounding_volume(q),
            Primitive::Cuboid(c) => Cuboid::bounding_volume(c),
        }
    }
}

/// The closest hit over a sequence of primitives, scanned in order
/// (the brute-force reference the hierarchy is measured against).
pub open spec fn list_hit_s(s: Seq<Primitive>, ray: Ray, range: Interval) -> Option<HitRecord>
    decreases s.len(),
{
    if s.len() == 0 {
        Option::None
    } else {
        closer_opt(list_hit_s(s.drop_last(), ray, range), prim_hit_s(s.last(), ray, range))
    }
}

/// The union of the bounding boxes of a sequence of primitives, folded
/// onto a starting box.
pub open spec fn boxes_fold_s(s: Seq<Primitive>, init: BoundingBox) -> BoundingBox
    decreases s.len(),
{
    if s.len() == 0 {
        init
    } else {
        surrounding_s(boxes_fold_s(s.drop_last(), init), prim_bbox_s(s.last()))
    }
}

/// A flat, unordered collection of primitives.
#[derive(Clone, Debug)]
pub struct HittableList {
    pub list: Vec<Primitive>,
}

impl HittableList {
    pub fn new() -> (r: HittableList)
        ensures
            r.list@ == Seq::<Primitive>::empty(),
    {
        HittableList { list: Vec::new() }
    }

    pub fn from(list: Vec<Primitive>) -> (r: HittableList)
        ensures
            r.list == list,
    {
        HittableList { list }
    }

    /// Appends one primitive, builder style.
    pub fn push(self, hittable: Primitive) -> (r: HittableList)
        ensures
            r.list@ == self.list@.push(hittable),
    {
        let mut list = self.list;
        list.push(hittable);
        HittableList { list }
    }
}

impl Hit for HittableList {
    open spec fn wf_h(&self) -> bool {
        forall|i: int| 0 <= i < self.list@.len() ==> prim_wf(#[trigger] self.list@[i])
    }

    open spec fn hit_spec(&self, ray: Ray, range: Interval) -> Option<HitRecord> {
        list_hit_s(self.list@, ray, range)
    }

    open spec fn bv_pre(&self) -> bool {
        self.list@.len() > 0
    }

    open spec fn bbox_spec(&self) -> BoundingBox {
        boxes_fold_s(self.list@, prim_bbox_s(self.list@[0]))
    }

    /// Scans every primitive and keeps the closest hit.
    fn hit(&self, ray: &Ray, range: Interval) -> (r: Option<HitRecord>) {
        let mut closest: Option<HitRecord> = None;
        let n: usize = self.list.len();
        let mut i: usize = 0;
        while i < n
            invariant
                0 <= i <= n,
                n == self.list@.len(),
                self.wf_h(),
                ray.wf(),
                -T_FAR <= range.min,
                range.max <= T_FAR,
                closest == list_hit_s(self.list@.subrange(0, i as int), *ray, range),
                closest matches Some(h) ==> h.wf() && h.material.wf(),
            decreases n - i,
        {
            let hit_record: Option<HitRecord> = self.list[i].hit(ray, range);
            closest = match (closest, hit_record) {
                (None, _) => hit_record,
                (Some(_), None) => closest,
                (Some(c), Some(h)) => if h.t_hit < c.t_hit {
                    hit_record
                } else {
                    closest
                },
            };
            proof {
                assert(self.list@.subrange(0, i + 1 as int).drop_last() =~= self.list@.subrange(
                    0,
                    i as int,
                ));
                assert(self.list@.subrange(0, i + 1 as int).last() == self.list@[i as int]);
            }
            i = i + 1;
        }
        proof {
            assert(self.list@.subrange(0, n as int) =~= self.list@);
        }
        closest
    }

    /// The union of all the primitives' boxes; the collection must be
    /// nonempty.
    fn bounding_volume(&self) -> (r: BoundingBox) {
        let mut bbox: BoundingBox = self.list[0].bounding_volume();
        let n: usize = self.list.len();
        let mut i: usize = 0;
        while i < n
            invariant
                0 <= i <= n,
                n == self.list@.len(),
                n > 0,
                self.wf_h(),
                bbox == boxes_fold_s(
                    self.list@.subrange(0, i as int),
                    prim_bbox_s(self.list@[0]),
                ),
                bbox.wf(),
            decreases n - i,
        {
            let other: BoundingBox = self.list[i].bounding_volume();
            bbox = BoundingBox::surrounding(bbox, other);
            proof {
                assert(self.list@.subrange(0, i + 1 as int).drop_last() =~= self.list@.subrange(
                    0,
                    i as int,
                ));
                assert(self.list@.subrange(0, i + 1 as int).last() == self.list@[i as int]);
            }
            i = i + 1;
        }
        proof {
            assert(self.list@.subrange(0, n as int) =~= self.list@);
        }
        bbox
    }
}

/// A hit exactly at a range bound does not count: every hit a
/// primitive reports has its parameter strictly inside the open query
/// range.
pub proof fn lemma_prim_hit_strictly_inside(p: Primitive, ray: Ray, range: Interval)
    ensures
        prim_hit_s(p, ray, range) matches Some(h) ==> range.contains_s(h.t_hit as int),
{
    match p {
        Primitive::Sphere(_) => {
        },
        Primitive::Quad(_) => {
        },
        Primitive::Cuboid(c) => {
            lemma_quads_hit_strictly_inside(c.sides@, ray, range);
        },
    }
}

/// The same, over a scan of quads.
proof fn lemma_quads_hit_strictly_inside(qs: Seq<Quad>, ray: Ray, range: Interval)
    ensures
        quads_hit_s(qs, ray, range) matches Some(h) ==> range.contains_s(h.t_hit as int),
    decreases qs.len(),
{
    if qs.len() > 0 {
        lemma_quads_hit_strictly_inside(qs.drop_last(), ray, range);
    }
}

/// The same, over the brute-force scan of a whole collection.
pub proof fn lemma_list_hit_strictly_inside(s: Seq<Primitive>, ray: Ray, range: Interval)
    ensures
        list_hit_s(s, ray, range) matches Some(h) ==> range.contains_s(h.t_hit as int),
    decreases s.len(),
{
    if s.len() > 0 {
        lemma_list_hit_strictly_inside(s.drop_last(), ray, range);
        lemma_prim_hit_strictly_inside(s.last(), ray, range);
    }
}

} // verus!
