//! Fixed-point arithmetic, intervals, vectors and the pixel pipeline.

use ray_tracer::fixed::{div_floor_i128, fdiv64, fmul64, isqrt_u128, SCALE};
use ray_tracer::image_data::{clamp, get_ppm_value, push_decimal, ImageData};
use ray_tracer::interval::Interval;
use ray_tracer::color::Color;
use ray_tracer::vec3::{cross, dot, Vec3};

#[test]
fn fixed_point_products_and_quotients() {
    assert_eq!(fmul64(2 * SCALE, 3 * SCALE), 6 * SCALE);
    assert_eq!(fmul64(-2 * SCALE, 3 * SCALE), -6 * SCALE);
    assert_eq!(fdiv64(SCALE, 2 * SCALE), SCALE / 2);
    assert_eq!(fdiv64(-SCALE, 2 * SCALE), -SCALE / 2);
    // floor rounding on inexact quotients
    assert_eq!(fdiv64(SCALE, 3 * SCALE), 21845);
    assert_eq!(fdiv64(-SCALE, 3 * SCALE), -21846);
}

#[test]
fn floor_division_rounds_toward_negative_infinity() {
    assert_eq!(div_floor_i128(7, 2), 3);
    assert_eq!(div_floor_i128(-7, 2), -4);
    assert_eq!(div_floor_i128(-8, 2), -4);
}

#[test]
fn integer_square_roots() {
    assert_eq!(isqrt_u128(0), 0);
    assert_eq!(isqrt_u128(15), 3);
    assert_eq!(isqrt_u128(16), 4);
    assert_eq!(isqrt_u128(1 << 40), 1 << 20);
    assert_eq!(isqrt_u128((1 << 40) - 1), (1 << 20) - 1);
}

#[test]
fn interval_construction_normalizes_order() {
    let i = Interval::new(10, -3);
    assert_eq!(i.min, -3);
    assert_eq!(i.max, 10);
}

#[test]
fn interval_containment_is_open() {
    let i = Interval::new(0, 10);
    assert!(!i.contains(0));
    assert!(!i.contains(10));
    assert!(i.contains(1));
    assert!(i.contains(9));
    assert!(!i.contains(-1));
    assert!(!i.contains(11));
}

#[test]
fn interval_union_and_intersection() {
    let a = Interval::new(0, 10);
    let b = Interval::new(5, 20);
    let o = Interval::outer(a, b);
    assert_eq!((o.min, o.max), (0, 20));
    let i = Interval::inner(a, b);
    assert_eq!((i.min, i.max), (5, 10));
    assert!(Interval::do_overlap(a, b));
    let c = Interval::new(30, 40);
    assert!(!Interval::do_overlap(a, c));
}

#[test]
fn disjoint_intersection_is_normalized_back_into_order() {
    let a = Interval::new(0, 10);
    let c = Interval::new(30, 40);
    // the crossed bounds of an empty intersection are swapped back
    let i = Interval::inner(a, c);
    assert_eq!((i.min, i.max), (10, 30));
}

#[test]
fn vector_products_are_exact() {
    let a = Vec3::new(2 * SCALE, 0, 0);
    let b = Vec3::new(0, 3 * SCALE, 0);
    assert_eq!(dot(a, b), 0);
    let c = cross(a, b);
    assert_eq!((c.x, c.y, c.z), (0, 0, 6 * SCALE));
    assert_eq!(dot(a, a), 4 * SCALE);
}

#[test]
fn vector_length_and_unit() {
    let v = Vec3::new(3 * SCALE, 4 * SCALE, 0);
    assert_eq!(v.length_squared(), 25 * SCALE);
    assert_eq!(v.length(), 5 * SCALE);
    let u = Vec3::new(0, 0, 2 * SCALE).unit();
    assert_eq!((u.x, u.y, u.z), (0, 0, SCALE));
}

#[test]
fn degenerate_vector_stays_unchanged_under_unit() {
    let v = Vec3::new(3, -2, 1);
    let u = v.unit();
    assert_eq!((u.x, u.y, u.z), (3, -2, 1));
}

#[test]
fn random_unit_sphere_points_are_interior() {
    for _ in 0..32 {
        let v = Vec3::random_in_unit_sphere();
        assert!(v.length_squared() < SCALE);
    }
}

#[test]
fn clamp_holds_both_bounds() {
    assert_eq!(clamp(300, 0, 255), 255);
    assert_eq!(clamp(-5, 0, 255), 0);
    assert_eq!(clamp(100, 0, 255), 100);
    assert_eq!(clamp(255, 0, 255), 255);
    assert_eq!(clamp(0, 0, 255), 0);
}

#[test]
fn ppm_values_quantize_the_sample_average() {
    // full intensity, one sample: 255.999 rounds past the byte range
    assert_eq!(get_ppm_value(SCALE, 1), 255);
    // half intensity: 127.9995 rounds to 128
    assert_eq!(get_ppm_value(SCALE / 2, 1), 128);
    // negative accumulations clamp at zero
    assert_eq!(get_ppm_value(-SCALE, 1), 0);
    // two samples of full intensity average to full intensity
    assert_eq!(get_ppm_value(2 * SCALE, 2), 255);
}

#[test]
fn decimal_rendering() {
    let mut out: Vec<u8> = Vec::new();
    push_decimal(&mut out, 0);
    push_decimal(&mut out, 7);
    push_decimal(&mut out, 255);
    push_decimal(&mut out, 1000);
    assert_eq!(out, b"072551000".to_vec());
}

#[test]
fn ppm_bytes_of_a_single_pixel() {
    let mut img = ImageData::new(1, 1, 1);
    img.set(0, 0, Color::white());
    let bytes = img.ppm_bytes();
    assert_eq!(bytes, b"P3\n1 1\n255\n255 255 255\n".to_vec());
}

#[test]
fn ppm_rows_run_bottom_to_top() {
    let mut img = ImageData::new(1, 2, 1);
    img.set(0, 0, Color::black());
    img.set(0, 1, Color::white());
    let bytes = img.ppm_bytes();
    // the v = 1 (white) row is written first
    assert_eq!(bytes, b"P3\n1 2\n255\n255 255 255\n0 0 0\n".to_vec());
}

#[test]
fn image_accumulation_sums_samples() {
    let mut img = ImageData::new(2, 2, 2);
    img.add(0, 0, Color::grey(100));
    img.add(0, 0, Color::grey(150));
    let c = img.get(0, 0);
    assert_eq!((c.r, c.g, c.b), (250, 250, 250));
}

#[test]
fn scale_remaps_nonblack_pixels_and_skips_black() {
    let mut img = ImageData::new(1, 2, 1);
    img.set(0, 0, Color::grey(2 * SCALE));
    img.set(0, 1, Color::black());
    img.scale(SCALE, 3 * SCALE, 0, SCALE);
    // (2 - 1) / (3 - 1) * 1 + 0 = one half
    let remapped = img.get(0, 0);
    assert_eq!(
        (remapped.r, remapped.g, remapped.b),
        (SCALE / 2, SCALE / 2, SCALE / 2)
    );
    assert_eq!(img.get(0, 1), Color::black());
}

#[test]
fn with_num_samples_changes_only_the_divisor() {
    let img = ImageData::new(1, 1, 4).with_num_samples(2);
    assert_eq!(img.num_samples, 2);
    assert_eq!(get_ppm_value(2 * SCALE, img.num_samples), 255);
}

#[test]
fn color_arithmetic_is_componentwise() {
    let a = Color::new(SCALE, SCALE / 2, 0);
    let b = Color::new(SCALE / 2, SCALE / 2, SCALE);
    let s = a.plus(b);
    assert_eq!((s.r, s.g, s.b), (3 * SCALE / 2, SCALE, SCALE));
    let m = a.modulate(b);
    assert_eq!((m.r, m.g, m.b), (SCALE / 2, SCALE / 4, 0));
    let k = b.scaled(2 * SCALE);
    assert_eq!((k.r, k.g, k.b), (SCALE, SCALE, 2 * SCALE));
}
