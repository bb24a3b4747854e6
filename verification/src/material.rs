//! Scatter policies: how each material answers a hit with weighted
//! candidate outgoing rays, attenuation and emittance.
//!
//! The material set is closed, so it is a sum type; each variant's
//! scattering is pinned down by `scatter_post`. The dielectric is the
//! one policy that branches into two weighted rays (reflection plus
//! refraction); its two weights always sum to one.

use vstd::prelude::*;
use crate::fixed::{
    fmul_s, fdiv_s, fmul64, fdiv64, sqrt_floor, isqrt_i128, abs_i, SCALE,
    lemma_fmul_s_abs_bound, lemma_fmul_s_mixed_bound, lemma_fdiv_s_abs_bound,
};
use crate::interval::{min_i, max_i};
use crate::vec3::{
    Vec3, V3s, v3_add, v3_sub, v3_neg, v3_scale, v3_dot, v3_unit, dot, COORD_LIMIT, DIR_LIMIT,
};
use crate::color::{Color, C3s};
use crate::ray::{Ray, ray_new_s};
use crate::hit_record::{HitRecord, ScatterRecord};

verus! {

/// Mirror reflection of `v` about the unit normal `n`.
pub open spec fn reflect_s(v: V3s, n: V3s) -> V3s {
    v3_sub(v, v3_scale(2 * v3_dot(v, n), n))
}

/// Refraction of the unit direction `v` at a surface with unit normal
/// `n` pointing against `v`, with relative index `ratio`: the
/// tangential part scaled by the ratio, completed back to unit length.
pub open spec fn refract_s(v: V3s, n: V3s, ratio: int) -> V3s {
    let cos = min_i(v3_dot(v3_neg(v), n), SCALE as int);
    let perp = v3_scale(ratio, v3_add(v, v3_scale(cos, n)));
    let par_len = sqrt_floor(abs_i((SCALE as int) - v3_dot(perp, perp)) * (SCALE as int));
    v3_add(perp, v3_scale(-par_len, n))
}

/// Schlick's approximation of Fresnel reflectance.
pub open spec fn schlick_s(cosine: int, ref_idx: int) -> int {
    let q = fdiv_s((SCALE as int) - ref_idx, (SCALE as int) + ref_idx);
    let r0 = fmul_s(q, q);
    let omc = (SCALE as int) - cosine;
    let p5 = fmul_s(fmul_s(fmul_s(fmul_s(omc, omc), omc), omc), omc);
    r0 + fmul_s((SCALE as int) - r0, p5)
}

/// Mirror reflection.
pub fn reflect(v: Vec3, n: Vec3) -> (r: Vec3)
    requires
        v.bounded(DIR_LIMIT as int),
        n.bounded(DIR_LIMIT as int),
    ensures
        r@ == reflect_s(v@, n@),
        r.bounded(0x1000_0000int),
{
    proof {
        lemma_fmul_s_abs_bound(v.x as int, n.x as int, DIR_LIMIT as int);
        lemma_fmul_s_abs_bound(v.y as int, n.y as int, DIR_LIMIT as int);
        lemma_fmul_s_abs_bound(v.z as int, n.z as int, DIR_LIMIT as int);
    }
    let d: i64 = dot(v, n);
    let k: i64 = 2 * d;
    proof {
        lemma_fmul_s_mixed_bound(k as int, n.x as int, 0x100_0000int, DIR_LIMIT as int);
        lemma_fmul_s_mixed_bound(k as int, n.y as int, 0x100_0000int, DIR_LIMIT as int);
        lemma_fmul_s_mixed_bound(k as int, n.z as int, 0x100_0000int, DIR_LIMIT as int);
    }
    v.minus(n.times(k))
}

/// Refraction of `v_in` about `normal` with relative index `ratio`.
pub fn refract(v_in: Vec3, normal: Vec3, ratio: i64) -> (r: Vec3)
    requires
        v_in.bounded(DIR_LIMIT as int),
        normal.bounded(DIR_LIMIT as int),
        0 < ratio <= 0x10_0000,
    ensures
        r@ == refract_s(v_in@, normal@, ratio as int),
        r.bounded(0x10_0000_0000int),
{
    proof {
        lemma_fmul_s_abs_bound(-v_in.x as int, normal.x as int, DIR_LIMIT as int);
        lemma_fmul_s_abs_bound(-v_in.y as int, normal.y as int, DIR_LIMIT as int);
        lemma_fmul_s_abs_bound(-v_in.z as int, normal.z as int, DIR_LIMIT as int);
    }
    let cos_raw: i64 = dot(v_in.neg(), normal);
    let cos: i64 = if cos_raw <= SCALE {
        cos_raw
    } else {
        SCALE
    };
    proof {
        lemma_fmul_s_mixed_bound(cos as int, normal.x as int, 0x100_0000int, DIR_LIMIT as int);
        lemma_fmul_s_mixed_bound(cos as int, normal.y as int, 0x100_0000int, DIR_LIMIT as int);
        lemma_fmul_s_mixed_bound(cos as int, normal.z as int, 0x100_0000int, DIR_LIMIT as int);
    }
    let inner: Vec3 = v_in.plus(normal.times(cos));
    proof {
        lemma_fmul_s_mixed_bound(ratio as int, inner.x as int, 0x10_0000int, 0x800_0000int);
        lemma_fmul_s_mixed_bound(ratio as int, inner.y as int, 0x10_0000int, 0x800_0000int);
        lemma_fmul_s_mixed_bound(ratio as int, inner.z as int, 0x10_0000int, 0x800_0000int);
    }
    let perp: Vec3 = inner.times(ratio);
    proof {
        lemma_fmul_s_abs_bound(perp.x as int, perp.x as int, 0x8000_0001int);
        lemma_fmul_s_abs_bound(perp.y as int, perp.y as int, 0x8000_0001int);
        lemma_fmul_s_abs_bound(perp.z as int, perp.z as int, 0x8000_0001int);
    }
    let psq: i64 = perp.length_squared();
    let gap: i64 = if psq <= SCALE {
        SCALE - psq
    } else {
        psq - SCALE
    };
    proof {
        // The squared tangential length is below 2^48, so the radicand
        // is below 2^64 and the root below 2^32.
        assert((gap as int) * (SCALE as int) < 0x1_0000_0000_0000_0000int) by (nonlinear_arith)
            requires
                (gap as int) >= 0,
                (gap as int) < 0x1_0000_0000_0000int,
                (SCALE as int) == 0x1_0000,
        ;
    }
    let par_len_wide: i128 = isqrt_i128((gap as i128) * (SCALE as i128));
    proof {
        if par_len_wide as int > 0x1_0000_0000 {
            assert((par_len_wide as int) * (par_len_wide as int) >= 0x1_0000_0000_0000_0000int)
                by (nonlinear_arith)
                requires
                    par_len_wide as int > 0x1_0000_0000,
            ;
        }
    }
    let par_len: i64 = par_len_wide as i64;
    proof {
        lemma_fmul_s_mixed_bound(-par_len as int, normal.x as int, 0x1_0000_0000int, DIR_LIMIT as int);
        lemma_fmul_s_mixed_bound(-par_len as int, normal.y as int, 0x1_0000_0000int, DIR_LIMIT as int);
        lemma_fmul_s_mixed_bound(-par_len as int, normal.z as int, 0x1_0000_0000int, DIR_LIMIT as int);
    }
    perp.plus(normal.times(-par_len))
}

/// Schlick's reflectance approximation.
pub fn reflectance(cosine: i64, ref_idx: i64) -> (r: i64)
    requires
        SCALE / 16 <= ref_idx <= SCALE * 16,
        -0x40_0000 <= cosine <= SCALE,
    ensures
        r == schlick_s(cosine as int, ref_idx as int),
        -0x400_0000_0000_0000 <= r <= 0x400_0000_0000_0000,
{
    proof {
        crate::fixed::lemma_fdiv_s_ratio_bound((SCALE - ref_idx) as int, (SCALE + ref_idx) as int);
    }
    let q: i64 = fdiv64(SCALE - ref_idx, SCALE + ref_idx);
    proof {
        crate::fixed::lemma_fmul_s_square_within_one(q as int);
    }
    let r0: i64 = fmul64(q, q);
    let omc: i64 = SCALE - cosine;
    proof {
        lemma_fmul_s_abs_bound(omc as int, omc as int, 0x41_0000int);
    }
    let p2: i64 = fmul64(omc, omc);
    proof {
        lemma_fmul_s_mixed_bound(p2 as int, omc as int, 0x10_0000_0000int, 0x41_0000int);
    }
    let p3: i64 = fmul64(p2, omc);
    proof {
        lemma_fmul_s_mixed_bound(p3 as int, omc as int, 0x800_0000_0000int, 0x41_0000int);
    }
    let p4: i64 = fmul64(p3, omc);
    proof {
        lemma_fmul_s_mixed_bound(p4 as int, omc as int, 0x4_0000_0000_0000int, 0x41_0000int);
    }
    let p5: i64 = fmul64(p4, omc);
    proof {
        lemma_fmul_s_mixed_bound(
            (SCALE - r0) as int,
            p5 as int,
            0x1_0000int,
            0x200_0000_0000_0000int,
        );
    }
    let tail: i64 = fmul64(SCALE - r0, p5);
    r0 + tail
}

/// A diffuse surface: one scattered ray, offset from the normal by a
/// random point in the unit sphere.
#[derive(Clone, Copy, Debug)]
pub struct Lambertian {
    pub color: Color,
}

/// A mirror surface. The fuzz roughness parameter is accepted and
/// stored but has no effect on the reflected ray.
#[derive(Clone, Copy, Debug)]
pub struct Metal {
    pub albedo: Color,
    pub fuzz: i64,
}

/// A clear refracting surface with the given refractive index.
#[derive(Clone, Copy, Debug)]
pub struct Dielectric {
    pub refractive_index: i64,
}

/// A light source: no scattered rays, only emitted radiance.
#[derive(Clone, Copy, Debug)]
pub struct Emissive {
    pub color: Color,
}

/// The closed set of scatter policies.
#[derive(Clone, Copy, Debug)]
pub enum Material {
    Lambertian(Lambertian),
    Metal(Metal),
    Dielectric(Dielectric),
    Emissive(Emissive),
}

/// What `scatter` returns, for every material and every outcome of the
/// one random draw a diffuse bounce makes.
pub open spec fn scatter_post(m: Material, ray: Ray, hit: HitRecord, r: ScatterRecord) -> bool {
    &&& r.wf()
    &&& r.hit_point == hit.hit_point
    &&& r.emitted@ == (C3s { r: 0int, g: 0int, b: 0int })
    &&& match m {
        Material::Lambertian(_) => {
            &&& r.probabilities@.len() == 1
            &&& r.probabilities@[0] == SCALE
            &&& exists|rv: V3s|
                rv.bounded(SCALE as int) && v3_dot(rv, rv) < SCALE as int && r.scattered@[0]
                    == ray_new_s(hit.hit_point, v3_add(hit.normal@, v3_unit(rv)))
        },
        Material::Metal(_) => {
            &&& r.probabilities@.len() == 1
            &&& r.probabilities@[0] == SCALE
            &&& r.scattered@[0] == ray_new_s(hit.hit_point, reflect_s(ray.direction@, hit.normal@))
        },
        Material::Dielectric(d) => {
            let front = v3_dot(ray.direction@, hit.normal@) < 0;
            let un = if front {
                hit.normal@
            } else {
                v3_neg(hit.normal@)
            };
            let ratio = if front {
                fdiv_s(SCALE as int, d.refractive_index as int)
            } else {
                d.refractive_index as int
            };
            let cos = min_i(v3_dot(v3_neg(ray.direction@), un), SCALE as int);
            let sin = sqrt_floor(max_i((SCALE as int) - fmul_s(cos, cos), 0) * (SCALE as int));
            if fmul_s(ratio, sin) > SCALE as int {
                // total internal reflection: exactly one ray
                &&& r.probabilities@.len() == 1
                &&& r.probabilities@[0] == SCALE
                &&& r.scattered@[0] == ray_new_s(hit.hit_point, reflect_s(ray.direction@, un))
            } else {
                // energy split: both rays, weights summing to one
                &&& r.probabilities@.len() == 2
                &&& r.probabilities@[0] == schlick_s(cos, ratio)
                &&& r.probabilities@[1] == (SCALE as int) - schlick_s(cos, ratio)
                &&& r.probabilities@[0] + r.probabilities@[1] == SCALE
                &&& r.scattered@[0] == ray_new_s(hit.hit_point, reflect_s(ray.direction@, un))
                &&& r.scattered@[1] == ray_new_s(
                    hit.hit_point,
                    refract_s(ray.direction@, un, ratio),
                )
            }
        },
        Material::Emissive(_) => r.probabilities@.len() == 0,
    }
}

/// Per-variant attenuation: the per-bounce color multiplier.
pub open spec fn attenuation_s(m: Material) -> C3s {
    match m {
        Material::Lambertian(l) => l.color@,
        Material::Metal(mt) => mt.albedo@,
        Material::Dielectric(_) => C3s { r: SCALE as int, g: SCALE as int, b: SCALE as int },
        Material::Emissive(_) => C3s { r: 0int, g: 0int, b: 0int },
    }
}

/// Per-variant emittance: radiance independent of incoming light.
pub open spec fn emittance_s(m: Material) -> C3s {
    match m {
        Material::Emissive(e) => e.color@,
        _ => C3s { r: 0int, g: 0int, b: 0int },
    }
}


/// Energy conservation of the dielectric split: any scatter record the
/// dielectric policy admits holds either one reflected ray of weight
/// one (total internal reflection) or exactly two rays whose weights
/// sum to one.
pub proof fn lemma_dielectric_energy_split(
    d: Dielectric,
    ray: Ray,
    hit: HitRecord,
    r: ScatterRecord,
)
    requires
        scatter_post(Material::Dielectric(d), ray, hit, r),
    ensures
        r.probabilities@.len() == 1 || r.probabilities@.len() == 2,
        r.probabilities@.len() == 1 ==> r.probabilities@[0] == SCALE,
        r.probabilities@.len() == 2 ==> r.probabilities@[0] + r.probabilities@[1] == SCALE
            && r.scattered@.len() == 2,
{
}

impl Lambertian {
    pub fn new(color: Color) -> (r: Lambertian)
        ensures
            r.color == color,
    {
        Lambertian { color }
    }

    /// The deterministic part of the diffuse bounce, taking the random
    /// unit-sphere sample as an argument.
    pub fn scatter_with(&self, hit_record: &HitRecord, sample: Vec3) -> (r: ScatterRecord)
        requires
            hit_record.wf(),
            hit_record.hit_point.bounded(COORD_LIMIT as int),
            sample.bounded(SCALE as int),
        ensures
            r.wf(),
            r.hit_point == hit_record.hit_point,
            r.emitted@ == (C3s { r: 0int, g: 0int, b: 0int }),
            r.probabilities@.len() == 1,
            r.probabilities@[0] == SCALE,
            r.scattered@.len() == 1,
            r.scattered@[0] == ray_new_s(
                hit_record.hit_point,
                v3_add(hit_record.normal@, v3_unit(sample@)),
            ),
    {
        let u: Vec3 = sample.unit();
        let direction: Vec3 = hit_record.normal.plus(u);
        ScatterRecord::new(hit_record.hit_point).push(SCALE, direction)
    }

    /// One scattered direction, `normal + random_unit_vector()`, with
    /// weight one.
    pub fn scatter(&self, _ray: &Ray, hit_record: &HitRecord) -> (r: ScatterRecord)
        requires
            hit_record.wf(),
            hit_record.hit_point.bounded(COORD_LIMIT as int),
        ensures
            scatter_post(Material::Lambertian(*self), *_ray, *hit_record, r),
    {
        let sample: Vec3 = Vec3::random_in_unit_sphere();
        let r = self.scatter_with(hit_record, sample);
        proof {
            assert(r.scattered@[0] == ray_new_s(
                hit_record.hit_point,
                v3_add(hit_record.normal@, v3_unit(sample@)),
            ));
        }
        r
    }

    pub fn attenuation(&self) -> (c: Color)
        ensures
            c@ == attenuation_s(Material::Lambertian(*self)),
    {
        self.color
    }

    pub fn emittance(&self) -> (c: Color)
        ensures
            c@ == emittance_s(Material::Lambertian(*self)),
    {
        Color::black()
    }
}

impl Metal {
    pub fn new(albedo: Color, fuzz: i64) -> (r: Metal)
        ensures
            r.albedo == albedo,
            r.fuzz == fuzz,
    {
        Metal { albedo, fuzz }
    }

    /// One scattered direction: the mirror reflection, weight one.
    pub fn scatter(&self, ray: &Ray, hit_record: &HitRecord) -> (r: ScatterRecord)
        requires
            ray.wf(),
            hit_record.wf(),
            hit_record.hit_point.bounded(COORD_LIMIT as int),
        ensures
            scatter_post(Material::Metal(*self), *ray, *hit_record, r),
    {
        let reflected: Vec3 = reflect(ray.direction, hit_record.normal);
        ScatterRecord::new(hit_record.hit_point).push(SCALE, reflected)
    }

    pub fn attenuation(&self) -> (c: Color)
        ensures
            c@ == attenuation_s(Material::Metal(*self)),
    {
        self.albedo
    }

    pub fn emittance(&self) -> (c: Color)
        ensures
            c@ == emittance_s(Material::Metal(*self)),
    {
        Color::black()
    }
}

impl Dielectric {
    /// The refractive index stays in a physically generous band, which
    /// keeps every intermediate of the refraction math in range.
    pub open spec fn wf(self) -> bool {
        SCALE / 16 <= self.refractive_index <= SCALE * 16
    }

    pub fn new(refractive_index: i64) -> (r: Dielectric)
        requires
            SCALE / 16 <= refractive_index <= SCALE * 16,
        ensures
            r.refractive_index == refractive_index,
            r.wf(),
    {
        Dielectric { refractive_index }
    }

    /// Reflection and refraction weighted by Schlick reflectance, or
    /// pure reflection past the critical angle.
    pub fn scatter(&self, ray: &Ray, hit_record: &HitRecord) -> (r: ScatterRecord)
        requires
            self.wf(),
            ray.wf(),
            hit_record.wf(),
            hit_record.hit_point.bounded(COORD_LIMIT as int),
        ensures
            scatter_post(Material::Dielectric(*self), *ray, *hit_record, r),
    {
        let front: bool = hit_record.is_front_face(ray);
        let unit_normal: Vec3 = if front {
            hit_record.normal
        } else {
            hit_record.normal.neg()
        };
        proof {
            lemma_fdiv_s_abs_bound(SCALE as int, self.refractive_index as int, SCALE as int);
        }
        let refraction_ratio: i64 = if front {
            fdiv64(SCALE, self.refractive_index)
        } else {
            self.refractive_index
        };
        proof {
            // The ratio inherits the index's band: eta and 1/eta both
            // stay within a factor sixteen of one.
            if front {
                vstd::arithmetic::div_mod::lemma_div_is_ordered_by_denominator(
                    (SCALE as int) * (SCALE as int),
                    (SCALE / 16) as int,
                    self.refractive_index as int,
                );
                vstd::arithmetic::div_mod::lemma_div_is_ordered_by_denominator(
                    (SCALE as int) * (SCALE as int),
                    self.refractive_index as int,
                    (SCALE * 16) as int,
                );
            }
            assert(SCALE / 16 <= refraction_ratio <= SCALE * 16);
        }
        proof {
            lemma_fmul_s_abs_bound(-ray.direction.x as int, unit_normal.x as int, DIR_LIMIT as int);
            lemma_fmul_s_abs_bound(-ray.direction.y as int, unit_normal.y as int, DIR_LIMIT as int);
            lemma_fmul_s_abs_bound(-ray.direction.z as int, unit_normal.z as int, DIR_LIMIT as int);
        }
        let cos_raw: i64 = dot(ray.direction.neg(), unit_normal);
        let cos_theta: i64 = if cos_raw <= SCALE {
            cos_raw
        } else {
            SCALE
        };
        proof {
            lemma_fmul_s_abs_bound(cos_theta as int, cos_theta as int, 0x40_0000int);
        }
        let cos_sq: i64 = fmul64(cos_theta, cos_theta);
        let gap: i64 = if SCALE - cos_sq >= 0 {
            SCALE - cos_sq
        } else {
            0
        };
        proof {
            crate::fixed::lemma_fmul_s_square_nonneg(cos_theta as int);
            assert((gap as int) * (SCALE as int) <= 0x1_0000_0000int) by (nonlinear_arith)
                requires
                    (gap as int) >= 0,
                    (gap as int) <= 0x1_0000,
                    (SCALE as int) == 0x1_0000,
            ;
        }
        let sin_wide: i128 = isqrt_i128((gap as i128) * (SCALE as i128));
        proof {
            if sin_wide as int > 0x1_0000 {
                assert((sin_wide as int) * (sin_wide as int) > 0x1_0000_0000int)
                    by (nonlinear_arith)
                    requires
                        sin_wide as int > 0x1_0000,
                ;
            }
        }
        let sin_theta: i64 = sin_wide as i64;
        proof {
            lemma_fmul_s_mixed_bound(
                refraction_ratio as int,
                sin_theta as int,
                0x10_0000int,
                0x1_0000int,
            );
        }
        let cannot_refract: bool = fmul64(refraction_ratio, sin_theta) > SCALE;
        let scattered = ScatterRecord::new(hit_record.hit_point);
        let reflected_direction: Vec3 = reflect(ray.direction, unit_normal);
        if cannot_refract {
            scattered.push(SCALE, reflected_direction)
        } else {
            let refl: i64 = reflectance(cos_theta, refraction_ratio);
            let refracted_direction: Vec3 = refract(ray.direction, unit_normal, refraction_ratio);
            scattered.push(refl, reflected_direction).push(SCALE - refl, refracted_direction)
        }
    }

    pub fn attenuation(&self) -> (c: Color)
        ensures
            c@ == attenuation_s(Material::Dielectric(*self)),
    {
        Color::white()
    }

    pub fn emittance(&self) -> (c: Color)
        ensures
            c@ == emittance_s(Material::Dielectric(*self)),
    {
        Color::black()
    }
}

impl Emissive {
    pub fn new(color: Color) -> (r: Emissive)
        ensures
            r.color == color,
    {
        Emissive { color }
    }

    /// No scattered rays: light sources only emit.
    pub fn scatter(&self, _ray: &Ray, hit_record: &HitRecord) -> (r: ScatterRecord)
        requires
            hit_record.hit_point.bounded(COORD_LIMIT as int),
        ensures
            scatter_post(Material::Emissive(*self), *_ray, *hit_record, r),
    {
        ScatterRecord::new(hit_record.hit_point)
    }

    pub fn attenuation(&self) -> (c: Color)
        ensures
            c@ == attenuation_s(Material::Emissive(*self)),
    {
        Color::black()
    }

    pub fn emittance(&self) -> (c: Color)
        ensures
            c@ == emittance_s(Material::Emissive(*self)),
    {
        self.color
    }
}

impl Material {
    /// Validity of the variant's parameters.
    pub open spec fn wf(self) -> bool {
        match self {
            Material::Dielectric(d) => d.wf(),
            _ => true,
        }
    }

    /// Dispatches to the variant's scatter policy.
    pub fn scatter(&self, ray: &Ray, hit_record: &HitRecord) -> (r: ScatterRecord)
        requires
            self.wf(),
            ray.wf(),
            hit_record.wf(),
            hit_record.hit_point.bounded(COORD_LIMIT as int),
        ensures
            scatter_post(*self, *ray, *hit_record, r),
    {
        match self {
            Material::Lambertian(m) => m.scatter(ray, hit_record),
            Material::Metal(m) => m.scatter(ray, hit_record),
            Material::Dielectric(m) => m.scatter(ray, hit_record),
            Material::Emissive(m) => m.scatter(ray, hit_record),
        }
    }

    pub fn attenuation(&self) -> (c: Color)
        ensures
            c@ == attenuation_s(*self),
    {
        match self {
            Material::Lambertian(m) => m.attenuation(),
            Material::Metal(m) => m.attenuation(),
            Material::Dielectric(m) => m.attenuation(),
            Material::Emissive(m) => m.attenuation(),
        }
    }

    pub fn emittance(&self) -> (c: Color)
        ensures
            c@ == emittance_s(*self),
    {
        match self {
            Material::Lambertian(m) => m.emittance(),
            Material::Metal(m) => m.emittance(),
            Material::Dielectric(m) => m.emittance(),
            Material::Emissive(m) => m.emittance(),
        }
    }
}

} // verus!
