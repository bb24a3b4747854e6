//! The background: a vertical gradient between two colors, sampled by
//! a missed ray's direction.

use vstd::prelude::*;
use crate::fixed::{floor_div, div_floor_i128, SCALE};
use crate::vec3::v3_unit;
use crate::color::{Color, C3s, c3_add, c3_scale};
use crate::ray::Ray;

verus! {

/// The color a missed ray contributes: the two colors interpolated by
/// the normalized direction's height.
pub open spec fn background_color_s(bg: GradientBackground, ray: Ray) -> C3s {
    let u = v3_unit(ray.direction@);
    let tval = floor_div(u.y + SCALE as int, 2);
    c3_add(c3_scale((SCALE as int) - tval, bg.color1@), c3_scale(tval, bg.color2@))
}

/// A vertical gradient between two colors.
#[derive(Clone, Copy, Debug)]
pub struct GradientBackground {
    pub color1: Color,
    pub color2: Color,
}

impl GradientBackground {
    pub fn new(color1: Color, color2: Color) -> (r: GradientBackground)
        ensures
            r.color1 == color1,
            r.color2 == color2,
    {
        GradientBackground { color1, color2 }
    }

    /// Interpolates between the two colors by the ray direction's
    /// height, normalized to the unit range.
    pub fn get_color(&self, ray_in: &Ray) -> (c: Color)
        requires
            ray_in.wf(),
        ensures
            c@ == background_color_s(*self, *ray_in),
    {
        let u = ray_in.direction.unit();
        proof {
            crate::fixed::lemma_floor_div_abs_bound(
                u.y as int + SCALE as int,
                2,
                0x40_0000_0002_0000int,
            );
        }
        let tw: i128 = div_floor_i128((u.y as i128) + (SCALE as i128), 2);
        let tval: i64 = tw as i64;
        let a = self.color1.scaled(SCALE - tval);
        let b = self.color2.scaled(tval);
        a.plus(b)
    }
}

} // verus!
