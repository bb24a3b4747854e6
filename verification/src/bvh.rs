//! The bounding volume hierarchy: a binary tree over primitives,
//! built once per scene by recursive median splits on a randomly
//! chosen axis, and traversed by pruning whole subtrees with the slab
//! test.

use vstd::prelude::*;
use vstd::pervasive::VecAdditionalExecFns;
use vstd::seq_lib::to_multiset_update;
use crate::interval::Interval;
use crate::ray::{Ray, T_FAR};
use crate::bbox::{BoundingBox, surrounding_s, slab_hit_s, contains_box};
use crate::hit_record::{HitRecord, closer_opt};
use crate::hittable::{Hit, Primitive, prim_wf, prim_hit_s, prim_bbox_s, HittableList, list_hit_s};
use crate::rng::random_in_range;

verus! {

/// A child of a tree node: either a nested node or a leaf primitive.
#[derive(Debug)]
pub enum BVHNodeType {
    BVHNode(Box<BVHNode>),
    Hittable(Primitive),
}

/// An internal node owning two children.
#[derive(Debug)]
pub struct BVHNode {
    pub left: BVHNodeType,
    pub right: BVHNodeType,
}

/// The primitives below a child, in tree order.
pub open spec fn child_prims(c: BVHNodeType) -> Seq<Primitive>
    decreases c,
{
    match c {
        BVHNodeType::Hittable(p) => seq![p],
        BVHNodeType::BVHNode(n) => node_prims(*n),
    }
}

/// The primitives below a node.
pub open spec fn node_prims(n: BVHNode) -> Seq<Primitive>
    decreases n,
{
    child_prims(n.left) + child_prims(n.right)
}

pub open spec fn child_wf(c: BVHNodeType) -> bool
    decreases c,
{
    match c {
        BVHNodeType::Hittable(p) => prim_wf(p),
        BVHNodeType::BVHNode(n) => node_wf(*n),
    }
}

pub open spec fn node_wf(n: BVHNode) -> bool
    decreases n,
{
    child_wf(n.left) && child_wf(n.right)
}

/// A child's bounding volume.
pub open spec fn child_bbox_s(c: BVHNodeType) -> BoundingBox
    decreases c,
{
    match c {
        BVHNodeType::Hittable(p) => prim_bbox_s(p),
        BVHNodeType::BVHNode(n) => node_bbox_s(*n),
    }
}

/// A node's bounding volume: the union of its children's, merged
/// bottom-up on each query rather than cached (the tree is immutable,
/// so caching would be an equivalent optimization).
pub open spec fn node_bbox_s(n: BVHNode) -> BoundingBox
    decreases n,
{
    surrounding_s(child_bbox_s(n.left), child_bbox_s(n.right))
}

/// How a node combines its children's answers: the closer hit; on a
/// tie, the right child's.
pub open spec fn combine_hits(l: Option<HitRecord>, r: Option<HitRecord>) -> Option<HitRecord> {
    match (l, r) {
        (Option::None, _) => r,
        (Option::Some(_), Option::None) => l,
        (Option::Some(lh), Option::Some(rh)) => if lh.t_hit < rh.t_hit {
            l
        } else {
            r
        },
    }
}

pub open spec fn child_hit_s(c: BVHNodeType, ray: Ray, range: Interval) -> Option<HitRecord>
    decreases c,
{
    match c {
        BVHNodeType::Hittable(p) => prim_hit_s(p, ray, range),
        BVHNodeType::BVHNode(n) => node_hit_s(*n, ray, range),
    }
}

/// A node's answer: nothing if the slab test rejects its volume, else
/// both children probed unconditionally and the closer hit kept.
pub open spec fn node_hit_s(n: BVHNode, ray: Ray, range: Interval) -> Option<HitRecord>
    decreases n,
{
    if !slab_hit_s(node_bbox_s(n), ray, range) {
        Option::None
    } else {
        combine_hits(child_hit_s(n.left, ray, range), child_hit_s(n.right, ray, range))
    }
}

/// The sort key during construction: the box's minimum bound on the
/// chosen axis.
pub open spec fn axis_min_s(p: Primitive, axis: int) -> int {
    let b = prim_bbox_s(p);
    if axis == 0 {
        b.x.min as int
    } else if axis == 1 {
        b.y.min as int
    } else {
        b.z.min as int
    }
}

fn box_axis_min(p: &Primitive, axis: usize) -> (r: i64)
    requires
        prim_wf(*p),
        axis < 3,
    ensures
        r == axis_min_s(*p, axis as int),
{
    let b: BoundingBox = p.bounding_volume();
    if axis == 0 {
        b.x.min
    } else if axis == 1 {
        b.y.min
    } else {
        b.z.min
    }
}

/// Whether the first object's box starts before the second's on the
/// given axis (the construction-time ordering).
pub fn is_closer(obj_a: &Primitive, obj_b: &Primitive, axis: usize) -> (r: bool)
    requires
        prim_wf(*obj_a),
        prim_wf(*obj_b),
        axis < 3,
    ensures
        r == (axis_min_s(*obj_a, axis as int) < axis_min_s(*obj_b, axis as int)),
{
    box_axis_min(obj_a, axis) < box_axis_min(obj_b, axis)
}

/// Swapping two positions permutes the sequence: the multiset is
/// unchanged.
proof fn lemma_swap_multiset(s: Seq<Primitive>, i: int, j: int)
    requires
        0 <= i < s.len(),
        0 <= j < s.len(),
    ensures
        s.update(i, s[j]).update(j, s[i]).to_multiset() == s.to_multiset(),
{
    broadcast use to_multiset_update;
    broadcast use vstd::seq_lib::group_to_multiset_ensures;
    broadcast use vstd::multiset::group_multiset_axioms;

    let s1 = s.update(i, s[j]);
    if i == j {
        assert(s1 =~= s);
        assert(s1.update(j, s[i]) =~= s);
    } else {
        let m = s.to_multiset();
        assert(s.contains(s[i]) && s.contains(s[j]));
        assert(m.count(s[i]) > 0 && m.count(s[j]) > 0);
        assert(s1[j] == s[j]);
        assert(s1.to_multiset() == m.insert(s[j]).remove(s[i]));
        assert(s1.update(j, s[i]).to_multiset() == s1.to_multiset().insert(s[i]).remove(s1[j]));
        assert(m.insert(s[j]).remove(s[i]).insert(s[i]).remove(s[j]) =~= m);
    }
}

/// Exchanges two elements in place.
fn swap_prims(list: &mut Vec<Primitive>, i: usize, j: usize)
    requires
        i < old(list)@.len(),
        j < old(list)@.len(),
    ensures
        final(list)@ == old(list)@.update(i as int, old(list)@[j as int]).update(
            j as int,
            old(list)@[i as int],
        ),
        final(list)@.to_multiset() == old(list)@.to_multiset(),
{
    let vi: Primitive = list[i];
    let vj: Primitive = list[j];
    list.set(i, vj);
    list.set(j, vi);
    proof {
        lemma_swap_multiset(old(list)@, i as int, j as int);
    }
}

/// Sorts the sub-slice `[start, end)` in place by the boxes' minimum
/// bound on the chosen axis (selection sort; the order of equal keys
/// is not specified).
fn sort_by_axis(list: &mut Vec<Primitive>, start: usize, end: usize, axis: usize)
    requires
        start <= end,
        end <= old(list)@.len(),
        axis < 3,
        forall|i: int| 0 <= i < old(list)@.len() ==> prim_wf(#[trigger] old(list)@[i]),
    ensures
        final(list)@.len() == old(list)@.len(),
        forall|i: int|
            0 <= i < final(list)@.len() && !(start <= i < end) ==> final(list)@[i] == old(
                list,
            )@[i],
        final(list)@.subrange(start as int, end as int).to_multiset() == old(list)@.subrange(
            start as int,
            end as int,
        ).to_multiset(),
        forall|i: int| 0 <= i < final(list)@.len() ==> prim_wf(#[trigger] final(list)@[i]),
        forall|i: int, j: int|
            start <= i <= j < end ==> axis_min_s(final(list)@[i], axis as int) <= axis_min_s(
                final(list)@[j],
                axis as int,
            ),
{
    let ghost orig = list@;
    let mut k: usize = start;
    while k < end
        invariant
            start <= k <= end,
            end <= list@.len(),
            axis < 3,
            list@.len() == orig.len(),
            forall|i: int| 0 <= i < list@.len() && !(start <= i < end) ==> list@[i] == orig[i],
            list@.subrange(start as int, end as int).to_multiset() == orig.subrange(
                start as int,
                end as int,
            ).to_multiset(),
            forall|i: int| 0 <= i < list@.len() ==> prim_wf(#[trigger] list@[i]),
            forall|i: int, j: int|
                start <= i <= j < k ==> axis_min_s(list@[i], axis as int) <= axis_min_s(
                    list@[j],
                    axis as int,
                ),
            forall|i: int, j: int|
                start <= i < k && k <= j < end ==> axis_min_s(list@[i], axis as int) <= axis_min_s(
                    list@[j],
                    axis as int,
                ),
        decreases end - k,
    {
        // find the minimum key in [k, end)
        let mut m: usize = k;
        let mut j: usize = k + 1;
        while j < end
            invariant
                k <= m < j <= end,
                end <= list@.len(),
                axis < 3,
                forall|i: int| 0 <= i < list@.len() ==> prim_wf(#[trigger] list@[i]),
                forall|i: int|
                    k <= i < j ==> axis_min_s(list@[m as int], axis as int) <= axis_min_s(
                        list@[i],
                        axis as int,
                    ),
            decreases end - j,
        {
            if is_closer(&list[j], &list[m], axis) {
                m = j;
            }
            j = j + 1;
        }
        let ghost before = list@;
        swap_prims(list, k, m);
        proof {
            assert(list@.subrange(start as int, end as int) =~= before.subrange(
                start as int,
                end as int,
            ).update(k - start, before[m as int]).update(m - start, before[k as int]));
            lemma_swap_multiset(before.subrange(start as int, end as int), k - start, m - start);
        }
        k = k + 1;
    }
}

impl BVHNode {
    /// Builds the subtree over `objects[start..end)`: a single
    /// primitive becomes a doubled leaf pair, two are ordered along a
    /// random axis, and more are sorted on a random axis and split at
    /// the midpoint.
    pub fn new(objects: &mut HittableList, start: usize, end: usize) -> (r: BVHNode)
        requires
            start < end,
            end <= old(objects).list@.len(),
            forall|i: int|
                0 <= i < old(objects).list@.len() ==> prim_wf(#[trigger] old(objects).list@[i]),
        ensures
            final(objects).list@.len() == old(objects).list@.len(),
            forall|i: int|
                0 <= i < final(objects).list@.len() && !(start <= i < end)
                    ==> final(objects).list@[i] == old(objects).list@[i],
            final(objects).list@.subrange(start as int, end as int).to_multiset()
                == old(objects).list@.subrange(start as int, end as int).to_multiset(),
            forall|i: int|
                0 <= i < final(objects).list@.len() ==> prim_wf(
                    #[trigger] final(objects).list@[i],
                ),
            node_wf(r),
            node_prims(r).to_set() == final(objects).list@.subrange(
                start as int,
                end as int,
            ).to_set(),
            end - start == 2 ==> node_prims(r).len() == 2 && exists|axis: int|
                0 <= axis < 3 && #[trigger] axis_min_s(node_prims(r)[0], axis) <= axis_min_s(
                    node_prims(r)[1],
                    axis,
                ),
        decreases end - start,
    {
        let axis: usize = random_in_range(0, 3) as usize;
        let object_span: usize = end - start;
        if object_span == 1 {
            let p: Primitive = objects.list[start];
            let r = BVHNode { left: BVHNodeType::Hittable(p), right: BVHNodeType::Hittable(p) };
            proof {
                let sub = objects.list@.subrange(start as int, end as int);
                assert(sub.len() == 1 && sub[0] == p);
                assert(node_prims(r) =~= seq![p, p]);
                assert(node_prims(r).to_set() =~= sub.to_set()) by {
                    assert(forall|x: Primitive| node_prims(r).contains(x) ==> x == p);
                    assert(node_prims(r)[0] == p);
                    assert(sub.contains(p) && node_prims(r).contains(p));
                    assert(forall|x: Primitive| sub.contains(x) ==> x == p);
                };
            }
            return r;
        }
        if object_span == 2 {
            let pa: Primitive = objects.list[start];
            let pb: Primitive = objects.list[start + 1];
            let r = if is_closer(&pa, &pb, axis) {
                BVHNode { left: BVHNodeType::Hittable(pa), right: BVHNodeType::Hittable(pb) }
            } else {
                BVHNode { left: BVHNodeType::Hittable(pb), right: BVHNodeType::Hittable(pa) }
            };
            proof {
                let sub = objects.list@.subrange(start as int, end as int);
                assert(sub.len() == 2 && sub[0] == pa && sub[1] == pb);
                // the drawn axis orders the two children's box minima
                assert(node_prims(r).len() == 2);
                assert(axis_min_s(node_prims(r)[0], axis as int) <= axis_min_s(
                    node_prims(r)[1],
                    axis as int,
                )) by {
                    assert(node_prims(r)[0] == child_prims(r.left)[0]);
                    assert(node_prims(r)[1] == child_prims(r.right)[0]);
                };
                assert(node_prims(r).to_set() =~= sub.to_set()) by {
                    assert(node_prims(r).len() == 2);
                    assert(node_prims(r)[0] == pa || node_prims(r)[0] == pb);
                    assert((node_prims(r)[0] == pa && node_prims(r)[1] == pb) || (node_prims(r)[0]
                        == pb && node_prims(r)[1] == pa));
                    assert(sub.contains(pa) && sub.contains(pb));
                    assert(node_prims(r).contains(pa) && node_prims(r).contains(pb));
                    assert(forall|x: Primitive| sub.contains(x) ==> x == pa || x == pb);
                    assert(forall|x: Primitive| node_prims(r).contains(x) ==> x == pa || x == pb);
                };
            }
            return r;
        }
        sort_by_axis(&mut objects.list, start, end, axis);
        let ghost sorted = objects.list@;
        let mid: usize = start + object_span / 2;
        let left_node: BVHNode = BVHNode::new(objects, start, mid);
        let ghost after_left = objects.list@;
        let right_node: BVHNode = BVHNode::new(objects, mid, end);
        let r = BVHNode {
            left: BVHNodeType::BVHNode(Box::new(left_node)),
            right: BVHNodeType::BVHNode(Box::new(right_node)),
        };
        proof {
            broadcast use vstd::seq_lib::group_to_multiset_ensures;

            let fin = objects.list@;
            // the left half is untouched by the right recursion
            assert(fin.subrange(start as int, mid as int) =~= after_left.subrange(
                start as int,
                mid as int,
            ));
            // the right half was untouched by the left recursion
            assert(after_left.subrange(mid as int, end as int) =~= sorted.subrange(
                mid as int,
                end as int,
            ));
            // the whole range splits at the midpoint, in every state
            assert(fin.subrange(start as int, end as int) =~= fin.subrange(start as int, mid as int)
                + fin.subrange(mid as int, end as int));
            assert(sorted.subrange(start as int, end as int) =~= sorted.subrange(
                start as int,
                mid as int,
            ) + sorted.subrange(mid as int, end as int));
            vstd::seq_lib::lemma_multiset_commutative(
                fin.subrange(start as int, mid as int),
                fin.subrange(mid as int, end as int),
            );
            vstd::seq_lib::lemma_multiset_commutative(
                sorted.subrange(start as int, mid as int),
                sorted.subrange(mid as int, end as int),
            );
            // sets: tree prims are the two halves' contents
            assert(node_prims(r) =~= node_prims(left_node) + node_prims(right_node));
            lemma_seq_add_to_set(node_prims(left_node), node_prims(right_node));
            lemma_seq_add_to_set(
                fin.subrange(start as int, mid as int),
                fin.subrange(mid as int, end as int),
            );
            lemma_multiset_eq_to_set_eq(
                after_left.subrange(start as int, mid as int),
                fin.subrange(start as int, mid as int),
            );
        }
        r
    }
}

/// Concatenation unions the element sets.
proof fn lemma_seq_add_to_set(a: Seq<Primitive>, b: Seq<Primitive>)
    ensures
        (a + b).to_set() == a.to_set().union(b.to_set()),
{
    assert((a + b).to_set() =~= a.to_set().union(b.to_set())) by {
        assert(forall|x: Primitive| a.contains(x) ==> (a + b).contains(x)) by {
            assert(forall|i: int| 0 <= i < a.len() ==> (a + b)[i] == a[i]);
        };
        assert(forall|x: Primitive| b.contains(x) ==> (a + b).contains(x)) by {
            assert(forall|i: int| 0 <= i < b.len() ==> (a + b)[a.len() + i] == b[i]);
        };
        assert(forall|x: Primitive| (a + b).contains(x) ==> a.contains(x) || b.contains(x)) by {
            assert(forall|i: int|
                0 <= i < (a + b).len() ==> (a + b)[i] == if i < a.len() {
                    a[i]
                } else {
                    b[i - a.len()]
                });
        };
    };
}

/// Sequences with equal multisets hold the same element set.
proof fn lemma_multiset_eq_to_set_eq(a: Seq<Primitive>, b: Seq<Primitive>)
    requires
        a.to_multiset() == b.to_multiset(),
    ensures
        a.to_set() == b.to_set(),
{
    broadcast use vstd::seq_lib::group_to_multiset_ensures;

    assert(a.to_set() =~= b.to_set()) by {
        assert(forall|x: Primitive| a.contains(x) <==> a.to_multiset().count(x) > 0);
        assert(forall|x: Primitive| b.contains(x) <==> b.to_multiset().count(x) > 0);
    };
}

impl BVHNodeType {
    /// A child's intersection answer.
    fn hit(&self, ray: &Ray, range: Interval) -> (r: Option<HitRecord>)
        requires
            child_wf(*self),
            ray.wf(),
            -T_FAR <= range.min,
            range.max <= T_FAR,
        ensures
            r == child_hit_s(*self, *ray, range),
            r matches Some(h) ==> h.wf() && h.material.wf(),
        decreases *self,
    {
        match self {
            BVHNodeType::BVHNode(n) => n.hit_rec(ray, range),
            BVHNodeType::Hittable(p) => p.hit(ray, range),
        }
    }

    /// A child's bounding volume.
    pub fn bounding_volume(&self) -> (r: BoundingBox)
        requires
            child_wf(*self),
        ensures
            r == child_bbox_s(*self),
            r.wf(),
        decreases *self,
    {
        match self {
            BVHNodeType::BVHNode(n) => n.bv_rec(),
            BVHNodeType::Hittable(p) => p.bounding_volume(),
        }
    }
}

impl BVHNode {
    /// Tests the node's own volume first; on a miss returns no-hit at
    /// once, else probes both children unconditionally and returns the
    /// closer hit.
    fn hit_rec(&self, ray: &Ray, range: Interval) -> (r: Option<HitRecord>)
        requires
            node_wf(*self),
            ray.wf(),
            -T_FAR <= range.min,
            range.max <= T_FAR,
        ensures
            r == node_hit_s(*self, *ray, range),
            r matches Some(h) ==> h.wf() && h.material.wf(),
        decreases *self,
    {
        let bbox: BoundingBox = self.bv_rec();
        if !bbox.hit(ray, range) {
            return None;
        }
        let left_hit: Option<HitRecord> = self.left.hit(ray, range);
        let right_hit: Option<HitRecord> = self.right.hit(ray, range);
        match (left_hit, right_hit) {
            (None, _) => right_hit,
            (Some(_), None) => left_hit,
            (Some(lh), Some(rh)) => if lh.t_hit < rh.t_hit {
                left_hit
            } else {
                right_hit
            },
        }
    }

    /// The children's volumes merged, recomputed on each query; the
    /// tree never changes after construction, so a cache would answer
    /// identically.
    fn bv_rec(&self) -> (r: BoundingBox)
        requires
            node_wf(*self),
        ensures
            r == node_bbox_s(*self),
            r.wf(),
        decreases *self,
    {
        let left_box: BoundingBox = self.left.bounding_volume();
        let right_box: BoundingBox = self.right.bounding_volume();
        BoundingBox::surrounding(left_box, right_box)
    }
}

impl Hit for BVHNode {
    open spec fn wf_h(&self) -> bool {
        node_wf(*self)
    }

    open spec fn hit_spec(&self, ray: Ray, range: Interval) -> Option<HitRecord> {
        node_hit_s(*self, ray, range)
    }

    open spec fn bv_pre(&self) -> bool {
        true
    }

    open spec fn bbox_spec(&self) -> BoundingBox {
        node_bbox_s(*self)
    }

    fn hit(&self, ray: &Ray, range: Interval) -> (r: Option<HitRecord>) {
        self.hit_rec(ray, range)
    }

    fn bounding_volume(&self) -> (r: BoundingBox) {
        self.bv_rec()
    }
}

/// The hit parameter and nothing else of an optional hit.
pub open spec fn hit_t(r: Option<HitRecord>) -> Option<i64> {
    match r {
        Option::None => Option::None,
        Option::Some(h) => Option::Some(h.t_hit),
    }
}

/// Box containment is transitive.
pub proof fn lemma_contains_box_trans(a: BoundingBox, b: BoundingBox, c: BoundingBox)
    requires
        contains_box(a, b),
        contains_box(b, c),
    ensures
        contains_box(a, c),
{
}

/// The bounding volume of a parent contains the bounding volumes of
/// both children, on every axis.
pub proof fn lemma_bvh_parent_contains_children(n: BVHNode)
    ensures
        contains_box(node_bbox_s(n), child_bbox_s(n.left)),
        contains_box(node_bbox_s(n), child_bbox_s(n.right)),
{
}

/// The subtree root's volume contains every primitive's volume below
/// it.
proof fn lemma_child_box_contains_prims(c: BVHNodeType, p: Primitive)
    requires
        child_prims(c).contains(p),
    ensures
        contains_box(child_bbox_s(c), prim_bbox_s(p)),
    decreases c,
{
    match c {
        BVHNodeType::Hittable(q) => {
            assert(child_prims(c)[0] == q);
            assert(p == q);
        },
        BVHNodeType::BVHNode(n) => {
            lemma_node_box_contains_prims(*n, p);
        },
    }
}

proof fn lemma_node_box_contains_prims(n: BVHNode, p: Primitive)
    requires
        node_prims(n).contains(p),
    ensures
        contains_box(node_bbox_s(n), prim_bbox_s(p)),
    decreases n,
{
    lemma_seq_add_contains(child_prims(n.left), child_prims(n.right), p);
    lemma_bvh_parent_contains_children(n);
    if child_prims(n.left).contains(p) {
        lemma_child_box_contains_prims(n.left, p);
        lemma_contains_box_trans(node_bbox_s(n), child_bbox_s(n.left), prim_bbox_s(p));
    } else {
        lemma_child_box_contains_prims(n.right, p);
        lemma_contains_box_trans(node_bbox_s(n), child_bbox_s(n.right), prim_bbox_s(p));
    }
}

/// Membership in a concatenation is membership in either part.
proof fn lemma_seq_add_contains(a: Seq<Primitive>, b: Seq<Primitive>, p: Primitive)
    ensures
        (a + b).contains(p) <==> a.contains(p) || b.contains(p),
{
    if a.contains(p) {
        let i = choose|i: int| 0 <= i < a.len() && a[i] == p;
        assert((a + b)[i] == p);
    }
    if b.contains(p) {
        let i = choose|i: int| 0 <= i < b.len() && b[i] == p;
        assert((a + b)[a.len() + i] == p);
    }
    if (a + b).contains(p) {
        let i = choose|i: int| 0 <= i < (a + b).len() && (a + b)[i] == p;
        if i < a.len() {
            assert(a[i] == p);
        } else {
            assert(b[i - a.len()] == p);
        }
    }
}

/// Whether a primitive's reported hit lies inside its own (padded)
/// bounding box as the slab test sees it. Exact fixed-point rounding
/// can in principle push a reported hit outside the box; the
/// hierarchy-equals-list theorem below assumes the rays for which this
/// does not happen.
pub open spec fn hit_within_own_box(p: Primitive, ray: Ray, range: Interval) -> bool {
    prim_hit_s(p, ray, range) is Some ==> slab_hit_s(prim_bbox_s(p), ray, range)
}

/// What it means for `r` to be the closest hit over the primitives of
/// `s`: nothing when every primitive misses, else a hit achieved by
/// some primitive and no farther than any other primitive's hit.
pub open spec fn is_min_hit(s: Seq<Primitive>, ray: Ray, range: Interval, r: Option<
    HitRecord,
>) -> bool {
    match r {
        Option::None => forall|p: Primitive| #[trigger]
            s.contains(p) ==> prim_hit_s(p, ray, range) is None,
        Option::Some(h) => {
            &&& exists|p: Primitive| #[trigger]
                s.contains(p) && prim_hit_s(p, ray, range) == Option::Some(h)
            &&& forall|p: Primitive| #[trigger]
                s.contains(p) ==> match prim_hit_s(p, ray, range) {
                    Option::Some(h2) => h.t_hit <= h2.t_hit,
                    Option::None => true,
                }
        },
    }
}

/// The brute-force scan returns the closest hit of its primitives:
/// nothing only when everything misses, else a hit some primitive
/// reports, no farther than any other primitive's.
pub proof fn lemma_list_hit_is_min(s: Seq<Primitive>, ray: Ray, range: Interval)
    ensures
        is_min_hit(s, ray, range, list_hit_s(s, ray, range)),
    decreases s.len(),
{
    if s.len() == 0 {
    } else {
        let pre = s.drop_last();
        let lastp = s.last();
        lemma_list_hit_is_min(pre, ray, range);
        assert forall|p: Primitive| #[trigger] s.contains(p) implies pre.contains(p) || p
            == lastp by {
            let i = choose|i: int| 0 <= i < s.len() && s[i] == p;
            if i < s.len() - 1 {
                assert(pre[i] == p);
            }
        }
        assert(forall|p: Primitive| #[trigger] pre.contains(p) ==> s.contains(p)) by {
            assert(forall|i: int| 0 <= i < pre.len() ==> pre[i] == s[i]);
        }
        assert(s.contains(lastp)) by {
            assert(s[s.len() - 1] == lastp);
        }
        let r = closer_opt(list_hit_s(pre, ray, range), prim_hit_s(lastp, ray, range));
        assert(r == list_hit_s(s, ray, range));
    }
}

/// A subtree answers with the closest hit of its primitives, for rays
/// on which every primitive's hit stays inside its own box.
proof fn lemma_child_hit_is_min(c: BVHNodeType, ray: Ray, range: Interval)
    requires
        forall|p: Primitive| #[trigger]
            child_prims(c).contains(p) ==> hit_within_own_box(p, ray, range),
    ensures
        is_min_hit(child_prims(c), ray, range, child_hit_s(c, ray, range)),
    decreases c,
{
    match c {
        BVHNodeType::Hittable(q) => {
            assert(child_prims(c)[0] == q);
            assert(child_prims(c).contains(q));
            assert(forall|p: Primitive| #[trigger] child_prims(c).contains(p) ==> p == q);
        },
        BVHNodeType::BVHNode(n) => {
            lemma_node_hit_is_min(*n, ray, range);
        },
    }
}

/// The hierarchy's answer is the closest hit of its primitives, for
/// rays on which every primitive's hit stays inside its own box.
pub proof fn lemma_node_hit_is_min(n: BVHNode, ray: Ray, range: Interval)
    requires
        forall|p: Primitive| #[trigger]
            node_prims(n).contains(p) ==> hit_within_own_box(p, ray, range),
    ensures
        is_min_hit(node_prims(n), ray, range, node_hit_s(n, ray, range)),
    decreases n,
{
    let lp = child_prims(n.left);
    let rp = child_prims(n.right);
    assert forall|p: Primitive| #[trigger] lp.contains(p) implies node_prims(n).contains(p) by {
        lemma_seq_add_contains(lp, rp, p);
    }
    assert forall|p: Primitive| #[trigger] rp.contains(p) implies node_prims(n).contains(p) by {
        lemma_seq_add_contains(lp, rp, p);
    }
    if !slab_hit_s(node_bbox_s(n), ray, range) {
        // a primitive that hit would drag its box, and so the node's
        // box, into the slab test's acceptance
        assert forall|p: Primitive| #[trigger]
            node_prims(n).contains(p) implies prim_hit_s(p, ray, range) is None by {
            if prim_hit_s(p, ray, range) is Some {
                assert(slab_hit_s(prim_bbox_s(p), ray, range));
                lemma_node_box_contains_prims(n, p);
                crate::bbox::lemma_slab_hit_mono(prim_bbox_s(p), node_bbox_s(n), ray, range);
            }
        }
    } else {
        lemma_child_hit_is_min(n.left, ray, range);
        lemma_child_hit_is_min(n.right, ray, range);
        let lh = child_hit_s(n.left, ray, range);
        let rh = child_hit_s(n.right, ray, range);
        let r = combine_hits(lh, rh);
        assert(node_hit_s(n, ray, range) == r);
        assert forall|p: Primitive| #[trigger]
            node_prims(n).contains(p) implies lp.contains(p) || rp.contains(p) by {
            lemma_seq_add_contains(lp, rp, p);
        }
        match r {
            Option::None => {
            },
            Option::Some(h) => {
                if lh matches Some(h0) && h == h0 {
                    let p = choose|p: Primitive|
                        lp.contains(p) && prim_hit_s(p, ray, range) == lh;
                    assert(node_prims(n).contains(p));
                    assert(prim_hit_s(p, ray, range) == Option::Some(h));
                } else {
                    let p = choose|p: Primitive|
                        rp.contains(p) && prim_hit_s(p, ray, range) == rh;
                    assert(node_prims(n).contains(p));
                    assert(prim_hit_s(p, ray, range) == Option::Some(h));
                }
            },
        }
    }
}

/// The hierarchy is an optimization, not an answer-changer: over the
/// same primitives, and for rays on which each primitive's reported
/// hit lies inside its own bounding box, the hierarchy and the
/// brute-force scan agree on the closest hit parameter; with no ties
/// between distinct primitives they return the same record.
pub proof fn lemma_bvh_matches_list(n: BVHNode, s: Seq<Primitive>, ray: Ray, range: Interval)
    requires
        node_prims(n).to_set() == s.to_set(),
        forall|p: Primitive| #[trigger] s.contains(p) ==> hit_within_own_box(p, ray, range),
    ensures
        hit_t(node_hit_s(n, ray, range)) == hit_t(list_hit_s(s, ray, range)),
{
    assert forall|p: Primitive| #[trigger]
        node_prims(n).contains(p) <==> s.contains(p) by {
        assert(node_prims(n).to_set().contains(p) == node_prims(n).contains(p));
        assert(s.to_set().contains(p) == s.contains(p));
    }
    lemma_node_hit_is_min(n, ray, range);
    lemma_list_hit_is_min(s, ray, range);
    let b = node_hit_s(n, ray, range);
    let l = list_hit_s(s, ray, range);
    match (b, l) {
        (Option::None, Option::None) => {
        },
        (Option::None, Option::Some(h)) => {
            let p = choose|p: Primitive| s.contains(p) && prim_hit_s(p, ray, range)
                == Option::Some(h);
            assert(node_prims(n).contains(p));
            assert(false);
        },
        (Option::Some(h), Option::None) => {
            let p = choose|p: Primitive|
                node_prims(n).contains(p) && prim_hit_s(p, ray, range) == Option::Some(h);
            assert(s.contains(p));
            assert(false);
        },
        (Option::Some(hb), Option::Some(hl)) => {
            let pb = choose|p: Primitive|
                node_prims(n).contains(p) && prim_hit_s(p, ray, range) == Option::Some(hb);
            let pl = choose|p: Primitive| s.contains(p) && prim_hit_s(p, ray, range)
                == Option::Some(hl);
            assert(s.contains(pb));
            assert(node_prims(n).contains(pl));
            assert(hb.t_hit <= hl.t_hit);
            assert(hl.t_hit <= hb.t_hit);
        },
    }
}

/// With the hit parameters of distinct primitives all distinct, the
/// two answers are the same record, material identity included.
pub proof fn lemma_bvh_matches_list_exactly(
    n: BVHNode,
    s: Seq<Primitive>,
    ray: Ray,
    range: Interval,
)
    requires
        node_prims(n).to_set() == s.to_set(),
        forall|p: Primitive| #[trigger] s.contains(p) ==> hit_within_own_box(p, ray, range),
        forall|p1: Primitive, p2: Primitive|
            s.contains(p1) && s.contains(p2) && p1 != p2 && prim_hit_s(p1, ray, range) is Some
                && prim_hit_s(p2, ray, range) is Some ==> (#[trigger] prim_hit_s(
                p1,
                ray,
                range,
            ))->Some_0.t_hit != (#[trigger] prim_hit_s(p2, ray, range))->Some_0.t_hit,
    ensures
        node_hit_s(n, ray, range) == list_hit_s(s, ray, range),
{
    lemma_bvh_matches_list(n, s, ray, range);
    assert forall|p: Primitive| #[trigger]
        node_prims(n).contains(p) <==> s.contains(p) by {
        assert(node_prims(n).to_set().contains(p) == node_prims(n).contains(p));
        assert(s.to_set().contains(p) == s.contains(p));
    }
    lemma_node_hit_is_min(n, ray, range);
    lemma_list_hit_is_min(s, ray, range);
    let b = node_hit_s(n, ray, range);
    let l = list_hit_s(s, ray, range);
    match (b, l) {
        (Option::Some(hb), Option::Some(hl)) => {
            let pb = choose|p: Primitive|
                node_prims(n).contains(p) && prim_hit_s(p, ray, range) == Option::Some(hb);
            let pl = choose|p: Primitive| s.contains(p) && prim_hit_s(p, ray, range)
                == Option::Some(hl);
            assert(s.contains(pb));
            assert(hb.t_hit == hl.t_hit);
            if pb != pl {
                assert(false);
            }
        },
        _ => {
        },
    }
}

/// Unconditionally, the hierarchy never invents a hit: any record a
/// subtree answers with is the exact answer of one of its primitives.
pub proof fn lemma_bvh_hit_is_some_primitives(n: BVHNode, ray: Ray, range: Interval)
    ensures
        node_hit_s(n, ray, range) matches Some(h) ==> exists|p: Primitive| #[trigger]
            node_prims(n).contains(p) && prim_hit_s(p, ray, range) == Option::Some(h),
{
    lemma_node_hit_achieved(n, ray, range);
}

proof fn lemma_child_hit_achieved(c: BVHNodeType, ray: Ray, range: Interval)
    ensures
        child_hit_s(c, ray, range) matches Some(h) ==> exists|p: Primitive| #[trigger]
            child_prims(c).contains(p) && prim_hit_s(p, ray, range) == Option::Some(h),
    decreases c,
{
    match c {
        BVHNodeType::Hittable(q) => {
            assert(child_prims(c)[0] == q);
            assert(child_prims(c).contains(q));
        },
        BVHNodeType::BVHNode(n) => {
            lemma_node_hit_achieved(*n, ray, range);
        },
    }
}

proof fn lemma_node_hit_achieved(n: BVHNode, ray: Ray, range: Interval)
    ensures
        node_hit_s(n, ray, range) matches Some(h) ==> exists|p: Primitive| #[trigger]
            node_prims(n).contains(p) && prim_hit_s(p, ray, range) == Option::Some(h),
    decreases n,
{
    if node_hit_s(n, ray, range) is Some {
        lemma_child_hit_achieved(n.left, ray, range);
        lemma_child_hit_achieved(n.right, ray, range);
        let lp = child_prims(n.left);
        let rp = child_prims(n.right);
        let lh = child_hit_s(n.left, ray, range);
        let rh = child_hit_s(n.right, ray, range);
        let h = node_hit_s(n, ray, range)->Some_0;
        if lh matches Some(h0) && h == h0 {
            let p = choose|p: Primitive| lp.contains(p) && prim_hit_s(p, ray, range) == lh;
            lemma_seq_add_contains(lp, rp, p);
            assert(node_prims(n).contains(p));
        } else {
            let p = choose|p: Primitive| rp.contains(p) && prim_hit_s(p, ray, range) == rh;
            lemma_seq_add_contains(lp, rp, p);
            assert(node_prims(n).contains(p));
        }
    }
}

} // verus!
