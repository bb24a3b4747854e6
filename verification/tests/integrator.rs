//! The radiance estimator: termination at the depth bound, background
//! sampling, emissive termination, and an end-to-end diffuse bounce
//! under a constant-radiance dome.

use ray_tracer::background::GradientBackground;
use ray_tracer::bvh::BVHNode;
use ray_tracer::color::Color;
use ray_tracer::fixed::SCALE;
use ray_tracer::hittable::{HittableList, Primitive};
use ray_tracer::material::{Emissive, Lambertian, Material};
use ray_tracer::quad::Quad;
use ray_tracer::ray::Ray;
use ray_tracer::shaders::{depth_gauge, DepthShader, NormalShader, RayTracer, MAX_DEPTH};
use ray_tracer::sphere::Sphere;
use ray_tracer::vec3::Vec3;

fn dome_scene() -> HittableList {
    // a matte floor quad under a constant-radiance emissive dome
    let matte = Material::Lambertian(Lambertian::new(Color::grey(SCALE / 2)));
    let dome = Material::Emissive(Emissive::new(Color::grey(2 * SCALE)));
    HittableList::new()
        .push(Primitive::Quad(Quad::new(
            Vec3::new(-2 * SCALE, -2 * SCALE, 0),
            Vec3::new(4 * SCALE, 0, 0),
            Vec3::new(0, 4 * SCALE, 0),
            matte,
        )))
        .push(Primitive::Sphere(Sphere::new(
            Vec3::zero(),
            1000 * SCALE,
            dome,
        )))
}

#[test]
fn radiance_at_the_depth_bound_is_black() {
    let mut world = dome_scene();
    let count = world.list.len();
    let bvh = BVHNode::new(&mut world, 0, count);
    let background = GradientBackground::new(Color::red(), Color::blue());
    let tracer = RayTracer::new();
    let ray = Ray::new(Vec3::new(0, 0, 3 * SCALE), Vec3::new(0, 0, -SCALE));
    assert_eq!(
        tracer.get_color(&ray, &bvh, &background, MAX_DEPTH),
        Color::black()
    );
    assert_eq!(
        tracer.get_color(&ray, &bvh, &background, MAX_DEPTH + 5),
        Color::black()
    );
}

#[test]
fn missed_rays_sample_the_background_gradient() {
    let world = HittableList::new().push(Primitive::Sphere(Sphere::new(
        Vec3::new(0, 0, -50 * SCALE),
        SCALE,
        Material::Lambertian(Lambertian::new(Color::red())),
    )));
    let background = GradientBackground::new(Color::red(), Color::blue());
    let tracer = RayTracer::new();
    // straight up: the interpolation value is exactly one
    let up = Ray::new(Vec3::zero(), Vec3::new(0, SCALE, 0));
    assert_eq!(tracer.get_color(&up, &world, &background, 0), Color::blue());
    // straight down: exactly zero
    let down = Ray::new(Vec3::zero(), Vec3::new(0, -SCALE, 0));
    assert_eq!(tracer.get_color(&down, &world, &background, 0), Color::red());
}

#[test]
fn emissive_hit_terminates_with_its_radiance() {
    let lamp_color = Color::grey(10 * SCALE);
    let world = HittableList::new().push(Primitive::Sphere(Sphere::new(
        Vec3::new(0, 0, 5 * SCALE),
        SCALE,
        Material::Emissive(Emissive::new(lamp_color)),
    )));
    let background = GradientBackground::new(Color::black(), Color::black());
    let tracer = RayTracer::new();
    let ray = Ray::new(Vec3::zero(), Vec3::new(0, 0, SCALE));
    assert_eq!(tracer.get_color(&ray, &world, &background, 0), lamp_color);
}

#[test]
fn diffuse_bounce_under_a_constant_dome_integrates_exactly() {
    // every scattered direction reaches the dome, so each sample is
    // exactly albedo * dome radiance = 0.5 * 2.0 = 1.0
    let mut world = dome_scene();
    let count = world.list.len();
    let bvh = BVHNode::new(&mut world, 0, count);
    let background = GradientBackground::new(Color::black(), Color::black());
    let tracer = RayTracer::new();
    let ray = Ray::new(Vec3::new(0, 0, 3 * SCALE), Vec3::new(0, 0, -SCALE));
    let samples: i64 = 64;
    let mut total: i64 = 0;
    for _ in 0..samples {
        let c = tracer.get_color(&ray, &bvh, &background, 0);
        assert_eq!(c.r, c.g);
        assert_eq!(c.g, c.b);
        total += c.r;
    }
    let average = total / samples;
    // exact up to the vanishing chance of a degenerate scatter draw
    assert!(
        (SCALE - 4 <= average) && (average <= SCALE + 4),
        "average {} should be one",
        average
    );
}

#[test]
fn normal_shader_shows_the_surface_normal() {
    let world = HittableList::new().push(Primitive::Sphere(Sphere::new(
        Vec3::new(0, 0, 5 * SCALE),
        SCALE,
        Material::Lambertian(Lambertian::new(Color::red())),
    )));
    let background = GradientBackground::new(Color::black(), Color::black());
    let shader = NormalShader::new();
    let ray = Ray::new(Vec3::zero(), Vec3::new(0, 0, SCALE));
    let c = shader.get_color(&ray, &world, &background, 0);
    assert_eq!((c.r, c.g, c.b), (0, 0, -SCALE));
    let miss = Ray::new(Vec3::zero(), Vec3::new(0, 0, -SCALE));
    assert_eq!(
        shader.get_color(&miss, &world, &background, 0),
        Color::black()
    );
}

#[test]
fn depth_shader_tracks_the_running_extremes() {
    let world = HittableList::new()
        .push(Primitive::Sphere(Sphere::new(
            Vec3::new(0, 0, 5 * SCALE),
            SCALE,
            Material::Lambertian(Lambertian::new(Color::red())),
        )))
        .push(Primitive::Sphere(Sphere::new(
            Vec3::new(10 * SCALE, 0, 10 * SCALE),
            SCALE,
            Material::Lambertian(Lambertian::new(Color::red())),
        )));
    let background = GradientBackground::new(Color::black(), Color::black());
    let mut shader = DepthShader::new();
    let near = Ray::new(Vec3::zero(), Vec3::new(0, 0, SCALE));
    let c = shader.get_color(&near, &world, &background, 0);
    // the gauge of t = 4: 1 / (1 + 4), floored
    let g = depth_gauge(4 * SCALE);
    assert_eq!(g, SCALE / 5);
    assert_eq!((c.r, c.g, c.b), (g, g, g));
    assert_eq!(shader.min_depth, 4 * SCALE);
    assert_eq!(shader.max_depth, 4 * SCALE);
    // a miss leaves the extremes alone
    let miss = Ray::new(Vec3::zero(), Vec3::new(0, -SCALE, 0));
    assert_eq!(
        shader.get_color(&miss, &world, &background, 0),
        Color::black()
    );
    assert_eq!(shader.min_depth, 4 * SCALE);
    assert_eq!(shader.max_depth, 4 * SCALE);
}

#[test]
fn depth_gauge_is_full_at_zero_and_decreasing() {
    assert_eq!(depth_gauge(0), SCALE);
    assert_eq!(depth_gauge(SCALE), SCALE / 2);
    assert_eq!(depth_gauge(3 * SCALE), SCALE / 4);
    let mut prev = depth_gauge(0);
    for k in 1..10i64 {
        let g = depth_gauge(k * SCALE);
        assert!(g < prev);
        prev = g;
    }
}
