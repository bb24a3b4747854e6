//! Fixed-point colors.
//!
//! A channel value of `SCALE` is full intensity; emissive sources may
//! exceed it. Arithmetic saturates at `COLOR_LIMIT`, far beyond any
//! radiance a bounded-depth render can accumulate, so each operation's
//! contract is still an exact statement of the result.

use vstd::prelude::*;
use crate::fixed::{fmul_s, clamp_s, add_clamp, fmul_clamp, SCALE};
use crate::vec3::Vec3;
use crate::rng::random_in_range;

verus! {

/// Saturation bound for color channels.
pub const COLOR_LIMIT: i64 = 0x100_0000_0000_0000;

/// The mathematical value of a color: its three channels as unbounded
/// integers.
pub ghost struct C3s {
    pub r: int,
    pub g: int,
    pub b: int,
}

/// Channelwise saturating sum.
pub open spec fn c3_add(a: C3s, b: C3s) -> C3s {
    C3s {
        r: clamp_s(a.r + b.r, -COLOR_LIMIT as int, COLOR_LIMIT as int),
        g: clamp_s(a.g + b.g, -COLOR_LIMIT as int, COLOR_LIMIT as int),
        b: clamp_s(a.b + b.b, -COLOR_LIMIT as int, COLOR_LIMIT as int),
    }
}

/// Saturating fixed-point scaling of every channel.
pub open spec fn c3_scale(k: int, a: C3s) -> C3s {
    C3s {
        r: clamp_s(fmul_s(k, a.r), -COLOR_LIMIT as int, COLOR_LIMIT as int),
        g: clamp_s(fmul_s(k, a.g), -COLOR_LIMIT as int, COLOR_LIMIT as int),
        b: clamp_s(fmul_s(k, a.b), -COLOR_LIMIT as int, COLOR_LIMIT as int),
    }
}

/// Channelwise saturating fixed-point product (attenuation).
pub open spec fn c3_modulate(a: C3s, b: C3s) -> C3s {
    C3s {
        r: clamp_s(fmul_s(a.r, b.r), -COLOR_LIMIT as int, COLOR_LIMIT as int),
        g: clamp_s(fmul_s(a.g, b.g), -COLOR_LIMIT as int, COLOR_LIMIT as int),
        b: clamp_s(fmul_s(a.b, b.b), -COLOR_LIMIT as int, COLOR_LIMIT as int),
    }
}

/// A fixed-point color; the view is the triple of its raw channels.
#[derive(Clone, Copy, Debug, PartialEq, Eq, Structural)]
pub struct Color {
    pub r: i64,
    pub g: i64,
    pub b: i64,
}

impl View for Color {
    type V = C3s;

    open spec fn view(&self) -> C3s {
        C3s { r: self.r as int, g: self.g as int, b: self.b as int }
    }
}

impl Color {
    pub fn new(r: i64, g: i64, b: i64) -> (c: Color)
        ensures
            c@ == (C3s { r: r as int, g: g as int, b: b as int }),
    {
        Color { r, g, b }
    }

    pub fn black() -> (c: Color)
        ensures
            c@ == (C3s { r: 0int, g: 0int, b: 0int }),
    {
        Color { r: 0, g: 0, b: 0 }
    }

    pub fn white() -> (c: Color)
        ensures
            c@ == (C3s { r: SCALE as int, g: SCALE as int, b: SCALE as int }),
    {
        Color { r: SCALE, g: SCALE, b: SCALE }
    }

    /// The grey level `l` in every channel.
    pub fn grey(l: i64) -> (c: Color)
        ensures
            c@ == (C3s { r: l as int, g: l as int, b: l as int }),
    {
        Color { r: l, g: l, b: l }
    }

    pub fn red() -> (c: Color)
        ensures
            c@ == (C3s { r: SCALE as int, g: 0int, b: 0int }),
    {
        Color { r: SCALE, g: 0, b: 0 }
    }

    pub fn green() -> (c: Color)
        ensures
            c@ == (C3s { r: 0int, g: SCALE as int, b: 0int }),
    {
        Color { r: 0, g: SCALE, b: 0 }
    }

    pub fn blue() -> (c: Color)
        ensures
            c@ == (C3s { r: 0int, g: 0int, b: SCALE as int }),
    {
        Color { r: 0, g: 0, b: SCALE }
    }

    pub fn r(&self) -> (v: i64)
        ensures
            v == self.r,
    {
        self.r
    }

    pub fn g(&self) -> (v: i64)
        ensures
            v == self.g,
    {
        self.g
    }

    pub fn b(&self) -> (v: i64)
        ensures
            v == self.b,
    {
        self.b
    }

    /// Reads a vector's components as color channels (used by the
    /// diagnostic shaders; components may be negative).
    pub fn from_vector(v: Vec3) -> (c: Color)
        ensures
            c@ == (C3s { r: v.x as int, g: v.y as int, b: v.z as int }),
    {
        Color { r: v.x, g: v.y, b: v.z }
    }


    /// A color with each channel drawn uniformly from `[min, max)`.
    pub fn random(min: i64, max: i64) -> (c: Color)
        requires
            min < max,
        ensures
            min <= c.r < max,
            min <= c.g < max,
            min <= c.b < max,
    {
        Color {
            r: random_in_range(min, max),
            g: random_in_range(min, max),
            b: random_in_range(min, max),
        }
    }

    /// Channelwise saturating sum.
    pub fn plus(self, rhs: Color) -> (c: Color)
        ensures
            c@ == c3_add(self@, rhs@),
    {
        Color {
            r: add_clamp(self.r, rhs.r, -COLOR_LIMIT, COLOR_LIMIT),
            g: add_clamp(self.g, rhs.g, -COLOR_LIMIT, COLOR_LIMIT),
            b: add_clamp(self.b, rhs.b, -COLOR_LIMIT, COLOR_LIMIT),
        }
    }

    /// Saturating fixed-point scaling by `k`.
    pub fn scaled(self, k: i64) -> (c: Color)
        ensures
            c@ == c3_scale(k as int, self@),
    {
        Color {
            r: fmul_clamp(k, self.r, -COLOR_LIMIT, COLOR_LIMIT),
            g: fmul_clamp(k, self.g, -COLOR_LIMIT, COLOR_LIMIT),
            b: fmul_clamp(k, self.b, -COLOR_LIMIT, COLOR_LIMIT),
        }
    }

    /// Channelwise saturating fixed-point product.
    pub fn modulate(self, rhs: Color) -> (c: Color)
        ensures
            c@ == c3_modulate(self@, rhs@),
    {
        Color {
            r: fmul_clamp(self.r, rhs.r, -COLOR_LIMIT, COLOR_LIMIT),
            g: fmul_clamp(self.g, rhs.g, -COLOR_LIMIT, COLOR_LIMIT),
            b: fmul_clamp(self.b, rhs.b, -COLOR_LIMIT, COLOR_LIMIT),
        }
    }
}

} // verus!
