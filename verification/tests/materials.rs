//! Scatter policies: the dielectric energy split and total internal
//! reflection, mirror reflection, diffuse and emissive behavior.

use ray_tracer::color::Color;
use ray_tracer::fixed::{fdiv64, SCALE};
use ray_tracer::hit_record::HitRecord;
use ray_tracer::material::{reflect, reflectance, Dielectric, Emissive, Lambertian, Material, Metal};
use ray_tracer::ray::Ray;
use ray_tracer::vec3::Vec3;

fn record_at_origin(direction: Vec3, normal: Vec3) -> HitRecord {
    HitRecord::new(
        2 * SCALE,
        Vec3::new(0, 0, 2 * SCALE),
        direction,
        normal,
        Material::Emissive(Emissive::new(Color::black())),
    )
}

#[test]
fn dielectric_normal_incidence_splits_energy() {
    let glass = Dielectric::new(3 * SCALE / 2);
    let ray = Ray::new(Vec3::zero(), Vec3::new(0, 0, SCALE));
    // the normal faces the incoming ray: a front-face (entering) hit
    let hit = record_at_origin(ray.direction, Vec3::new(0, 0, -SCALE));
    let rec = glass.scatter(&ray, &hit);
    assert_eq!(rec.probabilities.len(), 2);
    assert_eq!(rec.scattered.len(), 2);
    // the two weights always sum to one
    assert_eq!(rec.probabilities[0] + rec.probabilities[1], SCALE);
    // Schlick at normal incidence: ((1-1.5)/(1+1.5))^2 = 0.04
    let r0 = rec.probabilities[0];
    assert!(
        (26 * SCALE / 1000 <= r0) && (r0 <= 54 * SCALE / 1000),
        "reflectance {} should be near 0.04",
        r0
    );
}

#[test]
fn dielectric_past_critical_angle_only_reflects() {
    let glass = Dielectric::new(3 * SCALE / 2);
    // exiting the dense medium at sin(theta) = 0.8 > 1/1.5
    let ray = Ray::new(Vec3::zero(), Vec3::new(8 * SCALE, 0, 6 * SCALE));
    let hit = record_at_origin(ray.direction, Vec3::new(0, 0, SCALE));
    let rec = glass.scatter(&ray, &hit);
    assert_eq!(rec.probabilities.len(), 1);
    assert_eq!(rec.scattered.len(), 1);
    assert_eq!(rec.probabilities[0], SCALE);
}

#[test]
fn dielectric_attenuates_nothing_and_emits_nothing() {
    let glass = Dielectric::new(3 * SCALE / 2);
    assert_eq!(glass.attenuation(), Color::white());
    assert_eq!(glass.emittance(), Color::black());
}

#[test]
fn schlick_reflectance_at_normal_incidence() {
    // entering eta = 1.5: the ratio is 1/1.5
    let ratio = fdiv64(SCALE, 3 * SCALE / 2);
    assert_eq!(ratio, 43690);
    let r = reflectance(SCALE, ratio);
    assert_eq!(r, 2621);
}

#[test]
fn mirror_reflection_formula() {
    let v = Vec3::new(0, 0, SCALE);
    let n = Vec3::new(0, 0, -SCALE);
    let r = reflect(v, n);
    assert_eq!((r.x, r.y, r.z), (0, 0, -SCALE));
    let slanted = reflect(Vec3::new(SCALE, -SCALE, 0), Vec3::new(0, SCALE, 0));
    assert_eq!((slanted.x, slanted.y, slanted.z), (SCALE, SCALE, 0));
}

#[test]
fn metal_scatters_one_mirror_ray() {
    let metal = Metal::new(Color::white(), 0);
    let ray = Ray::new(Vec3::zero(), Vec3::new(0, 0, SCALE));
    let hit = record_at_origin(ray.direction, Vec3::new(0, 0, -SCALE));
    let rec = metal.scatter(&ray, &hit);
    assert_eq!(rec.probabilities.len(), 1);
    assert_eq!(rec.probabilities[0], SCALE);
    let d = rec.scattered[0].direction;
    assert_eq!((d.x, d.y, d.z), (0, 0, -SCALE));
    assert_eq!(rec.scattered[0].origin, hit.hit_point);
}

#[test]
fn lambertian_scatters_one_weighted_ray_from_the_hit_point() {
    let matte = Lambertian::new(Color::red());
    let ray = Ray::new(Vec3::zero(), Vec3::new(0, 0, SCALE));
    let hit = record_at_origin(ray.direction, Vec3::new(0, 0, -SCALE));
    for _ in 0..16 {
        let rec = matte.scatter(&ray, &hit);
        assert_eq!(rec.probabilities.len(), 1);
        assert_eq!(rec.probabilities[0], SCALE);
        assert_eq!(rec.scattered[0].origin, hit.hit_point);
    }
    assert_eq!(matte.attenuation(), Color::red());
    assert_eq!(matte.emittance(), Color::black());
}

#[test]
fn lambertian_deterministic_bounce_offsets_the_normal() {
    let matte = Lambertian::new(Color::red());
    let hit = record_at_origin(Vec3::new(0, 0, SCALE), Vec3::new(0, 0, -SCALE));
    // a sample pointing straight up normalizes to the unit z vector
    let rec = matte.scatter_with(&hit, Vec3::new(0, 0, 2 * SCALE / 4));
    assert_eq!(rec.probabilities.len(), 1);
    let d = rec.scattered[0].direction;
    // normal (0,0,-1) plus unit sample (0,0,1) degenerates to zero
    assert_eq!((d.x, d.y, d.z), (0, 0, 0));
}

#[test]
fn emissive_scatters_nothing_and_emits_its_color() {
    let lamp = Emissive::new(Color::grey(10 * SCALE));
    let ray = Ray::new(Vec3::zero(), Vec3::new(0, 0, SCALE));
    let hit = record_at_origin(ray.direction, Vec3::new(0, 0, -SCALE));
    let rec = lamp.scatter(&ray, &hit);
    assert_eq!(rec.probabilities.len(), 0);
    assert_eq!(rec.scattered.len(), 0);
    assert_eq!(lamp.emittance(), Color::grey(10 * SCALE));
    assert_eq!(lamp.attenuation(), Color::black());
}

#[test]
fn material_dispatch_matches_the_variants() {
    let m = Material::Metal(Metal::new(Color::blue(), 0));
    assert_eq!(m.attenuation(), Color::blue());
    assert_eq!(m.emittance(), Color::black());
    let e = Material::Emissive(Emissive::new(Color::green()));
    assert_eq!(e.attenuation(), Color::black());
    assert_eq!(e.emittance(), Color::green());
}
