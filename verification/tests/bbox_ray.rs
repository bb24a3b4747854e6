//! The slab rejection test, ray evaluation, and the scatter-record
//! builder.

use ray_tracer::bbox::BoundingBox;
use ray_tracer::color::Color;
use ray_tracer::fixed::SCALE;
use ray_tracer::hit_record::ScatterRecord;
use ray_tracer::interval::Interval;
use ray_tracer::ray::{Ray, T_FAR};
use ray_tracer::vec3::Vec3;

fn unit_box_at(z: i64) -> BoundingBox {
    BoundingBox::new(
        Vec3::new(-SCALE, -SCALE, z - SCALE),
        Vec3::new(SCALE, SCALE, z + SCALE),
    )
}

#[test]
fn slab_test_accepts_a_ray_through_the_box() {
    let bb = unit_box_at(5 * SCALE);
    let ray = Ray::new(Vec3::zero(), Vec3::new(0, 0, SCALE));
    assert!(bb.hit(&ray, Interval::new(66, T_FAR)));
}

#[test]
fn slab_test_rejects_a_ray_pointing_away() {
    let bb = unit_box_at(5 * SCALE);
    let ray = Ray::new(Vec3::zero(), Vec3::new(0, 0, -SCALE));
    assert!(!bb.hit(&ray, Interval::new(66, T_FAR)));
}

#[test]
fn slab_test_rejects_a_sidelong_miss() {
    let bb = unit_box_at(5 * SCALE);
    let ray = Ray::new(Vec3::new(4 * SCALE, 0, 0), Vec3::new(0, 0, SCALE));
    assert!(!bb.hit(&ray, Interval::new(66, T_FAR)));
}

#[test]
fn slab_test_handles_a_zero_direction_component() {
    let bb = unit_box_at(5 * SCALE);
    // moving only along z with x inside the box's x-range
    let inside = Ray::new(Vec3::new(SCALE / 2, 0, 0), Vec3::new(0, 0, SCALE));
    assert!(bb.hit(&inside, Interval::new(66, T_FAR)));
    // same motion with x outside: the parallel axis can never enter
    let outside = Ray::new(Vec3::new(2 * SCALE, 0, 0), Vec3::new(0, 0, SCALE));
    assert!(!bb.hit(&outside, Interval::new(66, T_FAR)));
}

#[test]
fn slab_test_respects_the_query_range() {
    let bb = unit_box_at(5 * SCALE);
    let ray = Ray::new(Vec3::zero(), Vec3::new(0, 0, SCALE));
    // the box spans t in [4, 6]; a range ending before it must reject
    assert!(!bb.hit(&ray, Interval::new(66, 2 * SCALE)));
    assert!(!bb.hit(&ray, Interval::new(7 * SCALE, T_FAR)));
}

#[test]
fn surrounding_covers_both_boxes() {
    let a = unit_box_at(5 * SCALE);
    let b = unit_box_at(9 * SCALE);
    let u = BoundingBox::surrounding(a, b);
    assert_eq!((u.z.min, u.z.max), (4 * SCALE, 10 * SCALE));
    assert_eq!((u.x.min, u.x.max), (-SCALE, SCALE));
}

#[test]
fn ray_evaluation_walks_the_direction() {
    let ray = Ray::new(Vec3::new(SCALE, 0, 0), Vec3::new(0, 0, 2 * SCALE));
    // the direction normalizes to unit z
    let d = ray.direction;
    assert_eq!((d.x, d.y, d.z), (0, 0, SCALE));
    let p = ray.at(3 * SCALE);
    assert_eq!((p.x, p.y, p.z), (SCALE, 0, 3 * SCALE));
    assert_eq!(ray.t, 0);
}

#[test]
fn scatter_record_builder_keeps_parallel_arrays() {
    let origin = Vec3::new(0, 0, 2 * SCALE);
    let rec = ScatterRecord::new(origin)
        .push(SCALE / 4, Vec3::new(0, 0, SCALE))
        .push(3 * SCALE / 4, Vec3::new(0, SCALE, 0))
        .with_emitted(Color::red());
    assert_eq!(rec.probabilities.len(), 2);
    assert_eq!(rec.scattered.len(), 2);
    assert_eq!(rec.probabilities[0], SCALE / 4);
    assert_eq!(rec.probabilities[1], 3 * SCALE / 4);
    assert_eq!(rec.scattered[0].origin, origin);
    assert_eq!(rec.scattered[1].origin, origin);
    assert_eq!(rec.emitted, Color::red());
    let d = rec.scattered[1].direction;
    assert_eq!((d.x, d.y, d.z), (0, SCALE, 0));
}

#[test]
fn near_zero_vector_test_matches_the_componentwise_rule() {
    assert!(Vec3::new(0, 0, 0).is_near_zero());
    assert!(Vec3::new(-5, -1, 0).is_near_zero());
    assert!(!Vec3::new(1, 0, 0).is_near_zero());
}
