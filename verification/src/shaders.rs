//! Shaders: the recursive path-tracing integrator and the diagnostic
//! single-bounce shaders.

use vstd::prelude::*;
use crate::fixed::{fdiv_s, div_floor_i128, SCALE};
use crate::interval::{Interval, min_i, max_i};
use crate::vec3::COORD_LIMIT;
use crate::color::{Color, C3s, c3_add, c3_scale, c3_modulate};
use crate::ray::{Ray, T_FAR};
use crate::hit_record::ScatterRecord;
use crate::material::{scatter_post, attenuation_s, emittance_s};
use crate::background::{GradientBackground, background_color_s};
use crate::hittable::Hit;

verus! {

/// The sole hard recursion bound of the integrator.
pub const MAX_DEPTH: u32 = 8;

/// Anti-acne epsilon: the open lower bound of every shader's hit
/// query, about a thousandth of a world unit.
pub const EPS_HIT: i64 = 66;

/// The query range every shader uses.
pub open spec fn shade_range_s() -> Interval {
    Interval { min: EPS_HIT, max: T_FAR }
}

/// The zero radiance.
pub open spec fn c3_zero() -> C3s {
    C3s { r: 0int, g: 0int, b: 0int }
}

/// One bounce's weighted, attenuated children: entry `i` contributes
/// its weight times the child radiance modulated by the attenuation,
/// accumulated in order.
pub open spec fn weighted_sum_s(probs: Seq<i64>, children: Seq<C3s>, att: C3s) -> C3s
    decreases probs.len(),
{
    if probs.len() == 0 {
        c3_zero()
    } else {
        c3_add(
            weighted_sum_s(probs.drop_last(), children.drop_last(), att),
            c3_scale(probs.last() as int, c3_modulate(children.last(), att)),
        )
    }
}

/// The radiance recurrence the integrator satisfies, for every outcome
/// of the random draws: black at the recursion bound; the background
/// on a miss; black for a hit whose point leaves the coordinate model;
/// otherwise some scatter record the material admits and child colors
/// satisfying the recurrence one level deeper exist, and the result is
/// their weighted, attenuated sum plus the material's emittance,
/// weights used as-is and emission added exactly once.
pub open spec fn radiance_rel<H: Hit>(
    world: H,
    background: GradientBackground,
    ray: Ray,
    depth: u32,
    c: C3s,
) -> bool
    decreases MAX_DEPTH - depth,
{
    if depth >= MAX_DEPTH {
        c == c3_zero()
    } else {
        match world.hit_spec(ray, shade_range_s()) {
            Option::None => c == background_color_s(background, ray),
            Option::Some(h) => {
                if !h.hit_point.bounded(COORD_LIMIT as int) {
                    c == c3_zero()
                } else {
                    exists|sr: ScatterRecord, cs: Seq<C3s>|
                        #![trigger weighted_sum_s(sr.probabilities@, cs, attenuation_s(h.material))]
                        {
                            &&& scatter_post(h.material, ray, h, sr)
                            &&& cs.len() == sr.scattered@.len()
                            &&& forall|i: int|
                                0 <= i < cs.len() ==> radiance_rel(
                                    world,
                                    background,
                                    #[trigger] sr.scattered@[i],
                                    (depth + 1) as u32,
                                    cs[i],
                                )
                            &&& c == c3_add(
                                weighted_sum_s(sr.probabilities@, cs, attenuation_s(h.material)),
                                emittance_s(h.material),
                            )
                        }
                }
            },
        }
    }
}

/// The recursive path-tracing integrator.
pub struct RayTracer {}

impl RayTracer {
    pub fn new() -> (r: RayTracer) {
        RayTracer {  }
    }

    /// Estimated radiance along a ray: black at the recursion bound;
    /// the background on a miss; on a hit, each weighted scattered ray
    /// recursed into, attenuated and summed, plus the material's
    /// emittance — the recurrence `radiance_rel`. A hit whose point
    /// falls outside the scene's coordinate bounds is degenerate and
    /// contributes black.
    pub fn get_color<H: Hit>(
        &self,
        ray_in: &Ray,
        world: &H,
        background: &GradientBackground,
        depth: u32,
    ) -> (c: Color)
        requires
            world.wf_h(),
            ray_in.wf(),
        ensures
            radiance_rel(*world, *background, *ray_in, depth, c@),
            depth >= MAX_DEPTH ==> c@ == c3_zero(),
            depth < MAX_DEPTH ==> match world.hit_spec(*ray_in, shade_range_s()) {
                Option::None => c@ == background_color_s(*background, *ray_in),
                Option::Some(h) => {
                    &&& !h.hit_point.bounded(COORD_LIMIT as int) ==> c@ == c3_zero()
                    &&& h.hit_point.bounded(COORD_LIMIT as int) && h.material is Emissive ==> c@
                        == c3_add(c3_zero(), emittance_s(h.material))
                },
            },
        decreases MAX_DEPTH - depth,
    {
        if depth >= MAX_DEPTH {
            return Color::black();
        }
        let range = Interval::new(EPS_HIT, T_FAR);
        match world.hit(ray_in, range) {
            None => background.get_color(ray_in),
            Some(h) => {
                let p = h.hit_point;
                let in_bounds: bool = p.x >= -COORD_LIMIT && p.x <= COORD_LIMIT && p.y
                    >= -COORD_LIMIT && p.y <= COORD_LIMIT && p.z >= -COORD_LIMIT && p.z
                    <= COORD_LIMIT;
                if !in_bounds {
                    return Color::black();
                }
                let scatter_rec: ScatterRecord = h.material.scatter(ray_in, &h);
                let attenuation: Color = h.material.attenuation();
                let mut color = Color::black();
                let ghost mut child_colors: Seq<C3s> = Seq::<C3s>::empty();
                let n: usize = scatter_rec.probabilities.len();
                let mut i: usize = 0;
                while i < n
                    invariant
                        0 <= i <= n,
                        n == scatter_rec.probabilities@.len(),
                        n == scatter_rec.scattered@.len(),
                        scatter_rec.wf(),
                        scatter_post(h.material, *ray_in, h, scatter_rec),
                        world.wf_h(),
                        depth < MAX_DEPTH,
                        attenuation@ == attenuation_s(h.material),
                        child_colors.len() == i,
                        forall|j: int|
                            0 <= j < i ==> radiance_rel(
                                *world,
                                *background,
                                #[trigger] scatter_rec.scattered@[j],
                                (depth + 1) as u32,
                                child_colors[j],
                            ),
                        color@ == weighted_sum_s(
                            scatter_rec.probabilities@.subrange(0, i as int),
                            child_colors,
                            attenuation_s(h.material),
                        ),
                        i == 0 ==> color@ == c3_zero(),
                    decreases n - i,
                {
                    let child: Color = self.get_color(
                        &scatter_rec.scattered[i],
                        world,
                        background,
                        depth + 1,
                    );
                    let weighted: Color = child.modulate(attenuation).scaled(
                        scatter_rec.probabilities[i],
                    );
                    color = color.plus(weighted);
                    proof {
                        let probs = scatter_rec.probabilities@;
                        assert(probs.subrange(0, i + 1 as int).drop_last() =~= probs.subrange(
                            0,
                            i as int,
                        ));
                        assert(probs.subrange(0, i + 1 as int).last() == probs[i as int]);
                        assert(child_colors.push(child@).drop_last() =~= child_colors);
                        child_colors = child_colors.push(child@);
                    }
                    i = i + 1;
                }
                let out: Color = color.plus(h.material.emittance());
                proof {
                    assert(scatter_rec.probabilities@.subrange(0, n as int)
                        =~= scatter_rec.probabilities@);
                    assert(out@ == c3_add(
                        weighted_sum_s(
                            scatter_rec.probabilities@,
                            child_colors,
                            attenuation_s(h.material),
                        ),
                        emittance_s(h.material),
                    ));
                }
                out
            },
        }
    }
}

/// Shows the surface normal at the first hit as a color.
pub struct NormalShader {}

impl NormalShader {
    pub fn new() -> (r: NormalShader) {
        NormalShader {  }
    }

    /// The hit normal read as a color; black on a miss.
    pub fn get_color<H: Hit>(
        &self,
        ray_in: &Ray,
        world: &H,
        _background: &GradientBackground,
        _depth: u32,
    ) -> (c: Color)
        requires
            world.wf_h(),
            ray_in.wf(),
        ensures
            match world.hit_spec(*ray_in, shade_range_s()) {
                Option::Some(h) => c@ == (C3s {
                    r: h.normal.x as int,
                    g: h.normal.y as int,
                    b: h.normal.z as int,
                }),
                Option::None => c@ == c3_zero(),
            },
    {
        let range = Interval::new(EPS_HIT, T_FAR);
        match world.hit(ray_in, range) {
            Some(h) => Color::from_vector(h.normal),
            None => Color::black(),
        }
    }
}

/// The sum of the directions a scatter record proposes, read as a
/// color.
pub open spec fn sum_directions_s(rays: Seq<Ray>) -> C3s
    decreases rays.len(),
{
    if rays.len() == 0 {
        c3_zero()
    } else {
        c3_add(
            sum_directions_s(rays.drop_last()),
            C3s {
                r: rays.last().direction.x as int,
                g: rays.last().direction.y as int,
                b: rays.last().direction.z as int,
            },
        )
    }
}

/// Shows the scattered directions at the first hit, summed as a color.
pub struct ScatterShader {}

impl ScatterShader {
    pub fn new() -> (r: ScatterShader) {
        ScatterShader {  }
    }

    /// The directions of the material's scatter record, summed; black
    /// on a miss or a degenerate hit point.
    pub fn get_color<H: Hit>(
        &self,
        ray_in: &Ray,
        world: &H,
        _background: &GradientBackground,
        _depth: u32,
    ) -> (c: Color)
        requires
            world.wf_h(),
            ray_in.wf(),
        ensures
            match world.hit_spec(*ray_in, shade_range_s()) {
                Option::None => c@ == c3_zero(),
                Option::Some(h) => {
                    &&& !h.hit_point.bounded(COORD_LIMIT as int) ==> c@ == c3_zero()
                    &&& h.hit_point.bounded(COORD_LIMIT as int) ==> exists|sr: ScatterRecord|
                        scatter_post(h.material, *ray_in, h, sr) && c@ == sum_directions_s(
                            sr.scattered@,
                        )
                },
            },
    {
        let range = Interval::new(EPS_HIT, T_FAR);
        match world.hit(ray_in, range) {
            Some(h) => {
                let p = h.hit_point;
                let in_bounds: bool = p.x >= -COORD_LIMIT && p.x <= COORD_LIMIT && p.y
                    >= -COORD_LIMIT && p.y <= COORD_LIMIT && p.z >= -COORD_LIMIT && p.z
                    <= COORD_LIMIT;
                if !in_bounds {
                    return Color::black();
                }
                let scatter_rec: ScatterRecord = h.material.scatter(ray_in, &h);
                let mut color = Color::black();
                let n: usize = scatter_rec.scattered.len();
                let mut i: usize = 0;
                while i < n
                    invariant
                        0 <= i <= n,
                        n == scatter_rec.scattered@.len(),
                        color@ == sum_directions_s(scatter_rec.scattered@.subrange(0, i as int)),
                    decreases n - i,
                {
                    let d = scatter_rec.scattered[i].direction;
                    color = color.plus(Color::from_vector(d));
                    proof {
                        assert(scatter_rec.scattered@.subrange(0, i + 1 as int).drop_last()
                            =~= scatter_rec.scattered@.subrange(0, i as int));
                        assert(scatter_rec.scattered@.subrange(0, i + 1 as int).last()
                            == scatter_rec.scattered@[i as int]);
                    }
                    i = i + 1;
                }
                proof {
                    assert(scatter_rec.scattered@.subrange(0, n as int) =~= scatter_rec.scattered@);
                }
                color
            },
            None => Color::black(),
        }
    }
}


/// A decreasing greyscale gauge of the hit parameter: full intensity
/// at zero depth, falling toward zero as the hit recedes (the
/// fixed-point stand-in for an exponential falloff, agreeing with it
/// to first order at zero).
pub open spec fn depth_gauge_s(t: int) -> int {
    fdiv_s(SCALE as int, (SCALE as int) + max_i(t, 0))
}

/// The gauge never increases with depth.
pub proof fn lemma_depth_gauge_antitone(t1: int, t2: int)
    requires
        t1 <= t2,
    ensures
        depth_gauge_s(t1) >= depth_gauge_s(t2),
{
    let s = SCALE as int;
    vstd::arithmetic::div_mod::lemma_div_is_ordered_by_denominator(
        s * s,
        s + max_i(t1, 0),
        s + max_i(t2, 0),
    );
}

/// Executable form of the depth gauge.
pub fn depth_gauge(t: i64) -> (r: i64)
    ensures
        r == depth_gauge_s(t as int),
        0 <= r <= SCALE,
{
    let tc: i64 = if t >= 0 {
        t
    } else {
        0
    };
    let den: i128 = (SCALE as i128) + (tc as i128);
    let gw: i128 = div_floor_i128(65536i128 * 65536i128, den);
    proof {
        let s = SCALE as int;
        vstd::arithmetic::div_mod::lemma_div_pos_is_pos(s * s, den as int);
        vstd::arithmetic::div_mod::lemma_div_is_ordered_by_denominator(s * s, s, den as int);
        assert((s * s) / s == s) by (nonlinear_arith)
            requires
                s == 65536,
        ;
    }
    gw as i64
}

/// Greyscale of the hit parameter, decreasingly remapped, with the
/// raw extremes tracked for a later contrast stretch.
pub struct DepthShader {
    pub min_depth: i64,
    pub max_depth: i64,
}

impl DepthShader {
    pub fn new() -> (r: DepthShader)
        ensures
            r.min_depth == i64::MAX,
            r.max_depth == i64::MIN,
    {
        DepthShader { min_depth: i64::MAX, max_depth: i64::MIN }
    }

    /// Folds one hit parameter into the running extremes.
    fn register(&mut self, t_hit: i64)
        ensures
            final(self).min_depth == min_i(old(self).min_depth as int, t_hit as int),
            final(self).max_depth == max_i(old(self).max_depth as int, t_hit as int),
    {
        if t_hit < self.min_depth {
            self.min_depth = t_hit;
        }
        if t_hit > self.max_depth {
            self.max_depth = t_hit;
        }
    }

    /// The hit parameter through the decreasing gauge as a grey level
    /// (nearer hits brighter); black on a miss. Updates the running
    /// raw depth range on a hit.
    pub fn get_color<H: Hit>(
        &mut self,
        ray_in: &Ray,
        world: &H,
        _background: &GradientBackground,
        _depth: u32,
    ) -> (c: Color)
        requires
            world.wf_h(),
            ray_in.wf(),
        ensures
            match world.hit_spec(*ray_in, shade_range_s()) {
                Option::Some(h) => {
                    &&& c@ == (C3s {
                        r: depth_gauge_s(h.t_hit as int),
                        g: depth_gauge_s(h.t_hit as int),
                        b: depth_gauge_s(h.t_hit as int),
                    })
                    &&& final(self).min_depth == min_i(old(self).min_depth as int, h.t_hit as int)
                    &&& final(self).max_depth == max_i(old(self).max_depth as int, h.t_hit as int)
                },
                Option::None => c@ == c3_zero() && *final(self) == *old(self),
            },
    {
        let range = Interval::new(EPS_HIT, T_FAR);
        match world.hit(ray_in, range) {
            Some(h) => {
                self.register(h.t_hit);
                Color::grey(depth_gauge(h.t_hit))
            },
            None => Color::black(),
        }
    }
}

} // verus!
