//! Primitive intersection: the sphere quadratic, quad planes, cuboids,
//! and the open-interval edge policy.

use ray_tracer::fixed::SCALE;
use ray_tracer::color::Color;
use ray_tracer::interval::Interval;
use ray_tracer::material::{Lambertian, Material};
use ray_tracer::ray::{Ray, T_FAR};
use ray_tracer::sphere::Sphere;
use ray_tracer::quad::{Cuboid, Quad};
use ray_tracer::vec3::Vec3;

fn grey_matte() -> Material {
    Material::Lambertian(Lambertian::new(Color::grey(SCALE / 2)))
}

#[test]
fn sphere_head_on_hit_reports_t_and_outward_normal() {
    let sphere = Sphere::new(Vec3::new(0, 0, 5 * SCALE), SCALE, grey_matte());
    let ray = Ray::new(Vec3::zero(), Vec3::new(0, 0, SCALE));
    let hit = sphere.hit(&ray, Interval::new(66, T_FAR)).expect("must hit");
    assert_eq!(hit.t_hit, 4 * SCALE);
    assert_eq!((hit.normal.x, hit.normal.y, hit.normal.z), (0, 0, -SCALE));
    assert_eq!(
        (hit.hit_point.x, hit.hit_point.y, hit.hit_point.z),
        (0, 0, 4 * SCALE)
    );
}

#[test]
fn sphere_behind_the_ray_is_missed() {
    let sphere = Sphere::new(Vec3::new(0, 0, 5 * SCALE), SCALE, grey_matte());
    let ray = Ray::new(Vec3::zero(), Vec3::new(0, 0, -SCALE));
    assert!(sphere.hit(&ray, Interval::new(66, T_FAR)).is_none());
}

#[test]
fn sphere_inside_range_only_counts_far_root() {
    let sphere = Sphere::new(Vec3::new(0, 0, 5 * SCALE), SCALE, grey_matte());
    let ray = Ray::new(Vec3::zero(), Vec3::new(0, 0, SCALE));
    // the near root is at 4, the far one at 6
    let hit = sphere
        .hit(&ray, Interval::new(5 * SCALE, T_FAR))
        .expect("far root");
    assert_eq!(hit.t_hit, 6 * SCALE);
}

#[test]
fn hit_exactly_on_either_bound_is_rejected() {
    let sphere = Sphere::new(Vec3::new(0, 0, 5 * SCALE), SCALE, grey_matte());
    let ray = Ray::new(Vec3::zero(), Vec3::new(0, 0, SCALE));
    // roots at exactly 4 and 6: both bounds are open, so no hit
    assert!(sphere.hit(&ray, Interval::new(4 * SCALE, 6 * SCALE)).is_none());
    // widen either side by one step and the matching root is back
    assert_eq!(
        sphere
            .hit(&ray, Interval::new(4 * SCALE - 1, 6 * SCALE))
            .expect("near root")
            .t_hit,
        4 * SCALE
    );
    assert_eq!(
        sphere
            .hit(&ray, Interval::new(4 * SCALE, 6 * SCALE + 1))
            .expect("far root")
            .t_hit,
        6 * SCALE
    );
}

#[test]
fn degenerate_ray_resolves_to_no_hit() {
    let sphere = Sphere::new(Vec3::new(0, 0, 5 * SCALE), SCALE, grey_matte());
    let ray = Ray::new(Vec3::zero(), Vec3::zero());
    assert!(sphere.hit(&ray, Interval::new(66, T_FAR)).is_none());
}

#[test]
fn zero_radius_sphere_resolves_to_no_hit() {
    let sphere = Sphere::new(Vec3::new(0, 0, 5 * SCALE), 0, grey_matte());
    // dead-center ray: a through-center hit would divide by the radius
    let ray = Ray::new(Vec3::zero(), Vec3::new(0, 0, SCALE));
    assert!(sphere.hit(&ray, Interval::new(66, T_FAR)).is_none());
}

#[test]
fn sub_resolution_direction_becomes_the_zero_ray() {
    let ray = Ray::new(Vec3::zero(), Vec3::new(3, -2, 1));
    let d = ray.direction;
    assert_eq!((d.x, d.y, d.z), (0, 0, 0));
    let sphere = Sphere::new(Vec3::new(0, 0, 5 * SCALE), SCALE, grey_matte());
    assert!(sphere.hit(&ray, Interval::new(66, T_FAR)).is_none());
}

#[test]
fn quad_center_hit() {
    let quad = Quad::new(
        Vec3::new(0, 0, 2 * SCALE),
        Vec3::new(2 * SCALE, 0, 0),
        Vec3::new(0, 2 * SCALE, 0),
        grey_matte(),
    );
    let ray = Ray::new(Vec3::new(SCALE / 2, SCALE / 2, 0), Vec3::new(0, 0, SCALE));
    let hit = quad.hit(&ray, Interval::new(66, T_FAR)).expect("must hit");
    assert_eq!(hit.t_hit, 2 * SCALE);
    assert_eq!((hit.normal.x, hit.normal.y, hit.normal.z), (0, 0, SCALE));
}

#[test]
fn quad_misses_outside_its_edges() {
    let quad = Quad::new(
        Vec3::new(0, 0, 2 * SCALE),
        Vec3::new(2 * SCALE, 0, 0),
        Vec3::new(0, 2 * SCALE, 0),
        grey_matte(),
    );
    let ray = Ray::new(Vec3::new(3 * SCALE, SCALE / 2, 0), Vec3::new(0, 0, SCALE));
    assert!(quad.hit(&ray, Interval::new(66, T_FAR)).is_none());
}

#[test]
fn quad_corner_and_edge_are_excluded() {
    let quad = Quad::new(
        Vec3::new(0, 0, 2 * SCALE),
        Vec3::new(2 * SCALE, 0, 0),
        Vec3::new(0, 2 * SCALE, 0),
        grey_matte(),
    );
    // aimed exactly at the corner: both planar coordinates are zero
    let ray = Ray::new(Vec3::new(0, 0, 0), Vec3::new(0, 0, SCALE));
    assert!(quad.hit(&ray, Interval::new(66, T_FAR)).is_none());
}

#[test]
fn parallel_ray_misses_the_quad_plane() {
    let quad = Quad::new(
        Vec3::new(0, 0, 2 * SCALE),
        Vec3::new(2 * SCALE, 0, 0),
        Vec3::new(0, 2 * SCALE, 0),
        grey_matte(),
    );
    let ray = Ray::new(Vec3::new(SCALE / 2, SCALE / 2, 0), Vec3::new(SCALE, 0, 0));
    assert!(quad.hit(&ray, Interval::new(66, T_FAR)).is_none());
}

#[test]
fn zero_area_quad_never_hits() {
    let quad = Quad::new(
        Vec3::new(0, 0, 2 * SCALE),
        Vec3::new(2 * SCALE, 0, 0),
        Vec3::new(2 * SCALE, 0, 0),
        grey_matte(),
    );
    let ray = Ray::new(Vec3::new(SCALE / 2, SCALE / 2, 0), Vec3::new(0, 0, SCALE));
    assert!(quad.hit(&ray, Interval::new(66, T_FAR)).is_none());
}

#[test]
fn cuboid_reports_the_nearest_face() {
    let cuboid = Cuboid::new(
        Vec3::new(-SCALE, -SCALE, 2 * SCALE),
        Vec3::new(SCALE, SCALE, 4 * SCALE),
        grey_matte(),
    );
    let ray = Ray::new(Vec3::new(SCALE / 2, SCALE / 2, 0), Vec3::new(0, 0, SCALE));
    let hit = cuboid.hit(&ray, Interval::new(66, T_FAR)).expect("must hit");
    assert_eq!(hit.t_hit, 2 * SCALE);
}

#[test]
fn quad_bounding_volume_pads_the_flat_axis() {
    let quad = Quad::new(
        Vec3::new(0, 0, 2 * SCALE),
        Vec3::new(2 * SCALE, 0, 0),
        Vec3::new(0, 2 * SCALE, 0),
        grey_matte(),
    );
    let bb = quad.bounding_volume();
    assert_eq!((bb.x.min, bb.x.max), (0, 2 * SCALE));
    assert_eq!((bb.y.min, bb.y.max), (0, 2 * SCALE));
    assert!(bb.z.min < 2 * SCALE && 2 * SCALE < bb.z.max);
}

#[test]
fn sphere_bounding_volume_is_the_corner_box() {
    let sphere = Sphere::new(Vec3::new(SCALE, 0, 5 * SCALE), 2 * SCALE, grey_matte());
    let bb = sphere.bounding_volume();
    assert_eq!((bb.x.min, bb.x.max), (-SCALE, 3 * SCALE));
    assert_eq!((bb.y.min, bb.y.max), (-2 * SCALE, 2 * SCALE));
    assert_eq!((bb.z.min, bb.z.max), (3 * SCALE, 7 * SCALE));
}
