//! The hierarchy against the brute-force list: same answers, and the
//! parent-contains-children structural invariant.

use ray_tracer::bbox::BoundingBox;
use ray_tracer::bvh::{BVHNode, BVHNodeType};
use ray_tracer::color::Color;
use ray_tracer::fixed::SCALE;
use ray_tracer::hittable::{Hit, HittableList, Primitive};
use ray_tracer::interval::Interval;
use ray_tracer::material::{Emissive, Lambertian, Material, Metal};
use ray_tracer::quad::Cuboid;
use ray_tracer::ray::{Ray, T_FAR};
use ray_tracer::sphere::Sphere;
use ray_tracer::vec3::Vec3;

fn sample_scene() -> HittableList {
    let matte = Material::Lambertian(Lambertian::new(Color::red()));
    let mirror = Material::Metal(Metal::new(Color::white(), 0));
    let lamp = Material::Emissive(Emissive::new(Color::grey(10 * SCALE)));
    HittableList::new()
        .push(Primitive::Sphere(Sphere::new(
            Vec3::new(0, 0, 5 * SCALE),
            SCALE,
            matte,
        )))
        .push(Primitive::Sphere(Sphere::new(
            Vec3::new(3 * SCALE, 0, 8 * SCALE),
            SCALE,
            mirror,
        )))
        .push(Primitive::Sphere(Sphere::new(
            Vec3::new(-4 * SCALE, 2 * SCALE, 6 * SCALE),
            2 * SCALE,
            lamp,
        )))
        .push(Primitive::Cuboid(Cuboid::new(
            Vec3::new(-SCALE, -3 * SCALE, 9 * SCALE),
            Vec3::new(SCALE, -SCALE, 11 * SCALE),
            matte,
        )))
        .push(Primitive::Sphere(Sphere::new(
            Vec3::new(0, 6 * SCALE, 5 * SCALE),
            SCALE,
            matte,
        )))
}

fn probe_rays() -> Vec<Ray> {
    vec![
        Ray::new(Vec3::zero(), Vec3::new(0, 0, SCALE)),
        Ray::new(Vec3::zero(), Vec3::new(3 * SCALE, 0, 8 * SCALE)),
        Ray::new(Vec3::zero(), Vec3::new(-4 * SCALE, 2 * SCALE, 6 * SCALE)),
        Ray::new(Vec3::zero(), Vec3::new(0, -2 * SCALE, 10 * SCALE)),
        Ray::new(Vec3::zero(), Vec3::new(0, 6 * SCALE, 5 * SCALE)),
        Ray::new(Vec3::zero(), Vec3::new(0, 0, -SCALE)),
        Ray::new(Vec3::zero(), Vec3::new(0, SCALE, 0)),
        Ray::new(Vec3::new(0, 0, 20 * SCALE), Vec3::new(0, 0, -SCALE)),
        Ray::new(Vec3::new(-8 * SCALE, 0, 0), Vec3::new(SCALE, SCALE / 4, SCALE)),
    ]
}

#[test]
fn bvh_and_list_agree_on_every_probe() {
    let mut world = sample_scene();
    let count = world.list.len();
    let bvh = BVHNode::new(&mut world, 0, count);
    let range = Interval::new(66, T_FAR);
    for ray in probe_rays() {
        let from_list = world.hit(&ray, range);
        let from_bvh = bvh.hit(&ray, range);
        match (from_list, from_bvh) {
            (None, None) => {}
            (Some(a), Some(b)) => {
                assert_eq!(a.t_hit, b.t_hit);
                assert_eq!(a.hit_point, b.hit_point);
            }
            (a, b) => panic!(
                "hierarchy disagrees with the scan: {:?} vs {:?}",
                a.map(|h| h.t_hit),
                b.map(|h| h.t_hit)
            ),
        }
    }
}

#[test]
fn ray_aimed_away_misses_both() {
    let mut world = sample_scene();
    let count = world.list.len();
    let bvh = BVHNode::new(&mut world, 0, count);
    let range = Interval::new(66, T_FAR);
    let away = Ray::new(Vec3::zero(), Vec3::new(0, 0, -SCALE));
    assert!(world.hit(&away, range).is_none());
    assert!(bvh.hit(&away, range).is_none());
}

fn assert_contains(outer: &BoundingBox, inner: &BoundingBox) {
    assert!(outer.x.min <= inner.x.min && inner.x.max <= outer.x.max);
    assert!(outer.y.min <= inner.y.min && inner.y.max <= outer.y.max);
    assert!(outer.z.min <= inner.z.min && inner.z.max <= outer.z.max);
}

fn check_containment(node: &BVHNode) {
    let own = node.bounding_volume();
    let left = node.left.bounding_volume();
    let right = node.right.bounding_volume();
    assert_contains(&own, &left);
    assert_contains(&own, &right);
    if let BVHNodeType::BVHNode(n) = &node.left {
        check_containment(n);
    }
    if let BVHNodeType::BVHNode(n) = &node.right {
        check_containment(n);
    }
}

#[test]
fn parent_volumes_contain_child_volumes() {
    let mut world = sample_scene();
    let count = world.list.len();
    let bvh = BVHNode::new(&mut world, 0, count);
    check_containment(&bvh);
}

#[test]
fn build_permutes_but_keeps_the_primitives() {
    let mut world = sample_scene();
    let before: Vec<i64> = world
        .list
        .iter()
        .map(|p| match p {
            Primitive::Sphere(s) => s.center.z,
            Primitive::Cuboid(c) => c.p0.z,
            Primitive::Quad(q) => q.corner.z,
        })
        .collect();
    let count = world.list.len();
    let _bvh = BVHNode::new(&mut world, 0, count);
    let mut after: Vec<i64> = world
        .list
        .iter()
        .map(|p| match p {
            Primitive::Sphere(s) => s.center.z,
            Primitive::Cuboid(c) => c.p0.z,
            Primitive::Quad(q) => q.corner.z,
        })
        .collect();
    let mut sorted_before = before.clone();
    sorted_before.sort();
    after.sort();
    assert_eq!(world.list.len(), count);
    assert_eq!(sorted_before, after);
}

#[test]
fn single_primitive_tree_doubles_the_leaf() {
    let matte = Material::Lambertian(Lambertian::new(Color::red()));
    let mut world = HittableList::new().push(Primitive::Sphere(Sphere::new(
        Vec3::new(0, 0, 5 * SCALE),
        SCALE,
        matte,
    )));
    let bvh = BVHNode::new(&mut world, 0, 1);
    let ray = Ray::new(Vec3::zero(), Vec3::new(0, 0, SCALE));
    let hit = bvh.hit(&ray, Interval::new(66, T_FAR)).expect("must hit");
    assert_eq!(hit.t_hit, 4 * SCALE);
}
