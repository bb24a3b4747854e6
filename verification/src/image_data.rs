//! The pixel buffer: accumulated (sample-summed) colors, quantization
//! to channel bytes, and the plain-text portable-pixmap body.

use vstd::prelude::*;
use crate::fixed::{floor_div, clamp_s, div_floor_i128, fdiv_s, fmul_s, SCALE};
use crate::color::{Color, C3s, c3_add, COLOR_LIMIT};

verus! {

/// `num` forced into `[min, max]`.
pub fn clamp(num: i64, min: i64, max: i64) -> (r: i64)
    requires
        min <= max,
    ensures
        r == clamp_s(num as int, min as int, max as int),
{
    if num >= min && num <= max {
        num
    } else if num >= max {
        max
    } else {
        min
    }
}

/// One channel quantized for output: the sample average scaled to the
/// byte range, rounded half up, clamped to `[0, 255]`.
pub open spec fn ppm_value_s(c: int, n: int) -> int {
    let den = 1000 * (SCALE as int) * n;
    clamp_s(floor_div(2 * 255999 * c + den, 2 * den), 0, 255)
}

/// Quantizes one accumulated channel value for `num_samples` samples.
pub fn get_ppm_value(color_value: i64, num_samples: u16) -> (r: i64)
    requires
        num_samples >= 1,
    ensures
        r == ppm_value_s(color_value as int, num_samples as int),
        0 <= r <= 255,
{
    let den: i128 = 65536000i128 * (num_samples as i128);
    proof {
        assert(den == 1000 * (SCALE as int) * (num_samples as int));
    }
    let num: i128 = 511998i128 * (color_value as i128) + den;
    let q: i128 = div_floor_i128(num, 2 * den);
    if q < 0 {
        0
    } else if q > 255 {
        255
    } else {
        q as i64
    }
}

/// The decimal digits of a nonnegative number, most significant first.
pub open spec fn dec_str_s(n: int) -> Seq<u8>
    decreases n,
{
    if n < 10 {
        seq![(48 + if n >= 0 {
            n
        } else {
            0
        }) as u8]
    } else {
        dec_str_s(n / 10).push((48 + n % 10) as u8)
    }
}

/// Appends the decimal representation of `n`.
pub fn push_decimal(out: &mut Vec<u8>, n: u64)
    ensures
        final(out)@ == old(out)@ + dec_str_s(n as int),
    decreases n,
{
    if n < 10 {
        out.push((48 + n) as u8);
        proof {
            assert(out@ =~= old(out)@ + dec_str_s(n as int));
        }
    } else {
        push_decimal(out, n / 10);
        out.push((48 + (n % 10)) as u8);
        proof {
            assert(out@ =~= old(out)@ + dec_str_s(n as int));
        }
    }
}

/// One pixel's line in the pixmap body: three quantized channels,
/// space-separated, newline-terminated.
pub open spec fn ppm_pixel_s(c: C3s, n: int) -> Seq<u8> {
    dec_str_s(ppm_value_s(c.r, n)) + seq![32u8] + dec_str_s(ppm_value_s(c.g, n)) + seq![32u8]
        + dec_str_s(ppm_value_s(c.b, n)) + seq![10u8]
}


/// One channel linearly remapped from `[r_min, r_max]` to
/// `[new_min, new_max]`, each step saturating at the color limit.
pub open spec fn scale_channel_s(ch: int, r_min: int, r_max: int, new_min: int, new_max: int) -> int {
    let t = clamp_s(fdiv_s(ch - r_min, r_max - r_min), -COLOR_LIMIT as int, COLOR_LIMIT as int);
    let u = clamp_s(fmul_s(t, new_max - new_min), -COLOR_LIMIT as int, COLOR_LIMIT as int);
    clamp_s(u + new_min, -COLOR_LIMIT as int, COLOR_LIMIT as int)
}

/// A color remapped channelwise.
pub open spec fn scale_color_s(c: C3s, r_min: int, r_max: int, new_min: int, new_max: int) -> C3s {
    C3s {
        r: scale_channel_s(c.r, r_min, r_max, new_min, new_max),
        g: scale_channel_s(c.g, r_min, r_max, new_min, new_max),
        b: scale_channel_s(c.b, r_min, r_max, new_min, new_max),
    }
}

/// Executable form of the channel remap.
fn scale_channel(ch: i64, r_min: i64, r_max: i64, new_min: i64, new_max: i64) -> (r: i64)
    requires
        r_max != r_min,
        -COLOR_LIMIT <= new_min <= COLOR_LIMIT,
        -COLOR_LIMIT <= new_max <= COLOR_LIMIT,
    ensures
        r == scale_channel_s(ch as int, r_min as int, r_max as int, new_min as int, new_max as int),
{
    let diff: i128 = (ch as i128) - (r_min as i128);
    let num: i128 = diff * 65536i128;
    let den: i128 = (r_max as i128) - (r_min as i128);
    proof {
        assert(num == (ch as int - r_min as int) * (SCALE as int));
        if den > 0 {
            crate::fixed::lemma_floor_div_abs_bound(
                num as int,
                den as int,
                0x2_0000_0000_0000_0000_0000int,
            );
        } else {
            crate::fixed::lemma_floor_div_abs_bound(
                -num as int,
                -den as int,
                0x2_0000_0000_0000_0000_0000int,
            );
        }
    }
    let q: i128 = crate::fixed::div_floor_any_i128(num, den);
    let t: i64 = if q < -COLOR_LIMIT as i128 {
        -COLOR_LIMIT
    } else if q > COLOR_LIMIT as i128 {
        COLOR_LIMIT
    } else {
        q as i64
    };
    let u: i64 = crate::fixed::fmul_clamp(t, new_max - new_min, -COLOR_LIMIT, COLOR_LIMIT);
    crate::fixed::add_clamp(u, new_min, -COLOR_LIMIT, COLOR_LIMIT)
}

/// The accumulated colors of all samples, one `Color` per pixel,
/// indexed by `width * u + v`.
#[derive(Clone, Debug)]
pub struct ImageData {
    pub pixels: Vec<Color>,
    pub width: usize,
    pub height: usize,
    pub num_samples: u16,
}

/// One row of the body: the pixels `(u, v)` for `u` in `[0, ucount)`
/// at fixed `v`.
pub open spec fn ppm_row_s(img: ImageData, v: int, ucount: int) -> Seq<u8>
    decreases ucount,
{
    if ucount <= 0 {
        Seq::<u8>::empty()
    } else {
        ppm_row_s(img, v, ucount - 1) + ppm_pixel_s(
            img.pixels@[img.width * (ucount - 1) + v]@,
            img.num_samples as int,
        )
    }
}

/// The rows from `height - 1` down to `vstop`.
pub open spec fn ppm_rows_s(img: ImageData, vstop: int) -> Seq<u8>
    decreases img.height - vstop,
{
    if vstop >= img.height {
        Seq::<u8>::empty()
    } else {
        ppm_rows_s(img, vstop + 1) + ppm_row_s(img, vstop, img.width as int)
    }
}

/// The header: `P3`, the dimensions, and the maximum channel value.
pub open spec fn ppm_header_s(img: ImageData) -> Seq<u8> {
    seq![80u8, 51u8, 10u8] + dec_str_s(img.width as int) + seq![32u8] + dec_str_s(
        img.height as int,
    ) + seq![10u8] + dec_str_s(255) + seq![10u8]
}

impl ImageData {
    /// Every pixel index in range is addressable.
    pub open spec fn wf(self) -> bool {
        &&& self.pixels@.len() == self.width * self.height
        &&& self.num_samples >= 1
    }

    pub fn new(width: usize, height: usize, num_samples: usize) -> (r: ImageData)
        requires
            width * height <= usize::MAX,
            1 <= num_samples <= u16::MAX,
        ensures
            r.wf(),
            r.width == width,
            r.height == height,
            r.num_samples == num_samples,
            r.pixels@.len() == width * height,
            forall|i: int|
                0 <= i < r.pixels@.len() ==> (#[trigger] r.pixels@[i])@ == (C3s {
                    r: 0int,
                    g: 0int,
                    b: 0int,
                }),
    {
        let count: usize = width * height;
        let pixels: Vec<Color> = vec![Color::black(); count];
        ImageData { pixels, width, height, num_samples: num_samples as u16 }
    }

    /// Replaces one pixel's accumulated color.
    pub fn set(&mut self, u: usize, v: usize, pixel_data: Color)
        requires
            old(self).wf(),
            old(self).width * u + v < old(self).pixels@.len(),
        ensures
            final(self).wf(),
            final(self).width == old(self).width,
            final(self).height == old(self).height,
            final(self).num_samples == old(self).num_samples,
            final(self).pixels@ == old(self).pixels@.update(
                old(self).width * u + v,
                pixel_data,
            ),
    {
        let n: usize = self.pixels.len();
        let idx: usize = self.width * u + v;
        self.pixels.set(idx, pixel_data);
    }

    /// Accumulates one more sample into a pixel.
    pub fn add(&mut self, u: usize, v: usize, pixel_data: Color)
        requires
            old(self).wf(),
            old(self).width * u + v < old(self).pixels@.len(),
        ensures
            final(self).wf(),
            final(self).width == old(self).width,
            final(self).height == old(self).height,
            final(self).num_samples == old(self).num_samples,
            final(self).pixels@.len() == old(self).pixels@.len(),
            (final(self).pixels@[old(self).width * u + v])@ == c3_add(
                (old(self).pixels@[old(self).width * u + v])@,
                pixel_data@,
            ),
            forall|i: int|
                0 <= i < final(self).pixels@.len() && i != old(self).width * u + v
                    ==> final(self).pixels@[i] == old(self).pixels@[i],
    {
        let n: usize = self.pixels.len();
        let idx: usize = self.width * u + v;
        let cur: Color = self.pixels[idx];
        self.pixels.set(idx, cur.plus(pixel_data));
    }

    /// Reads one pixel's accumulated color.
    pub fn get(&self, u: usize, v: usize) -> (c: Color)
        requires
            self.wf(),
            self.width * u + v < self.pixels@.len(),
        ensures
            c == self.pixels@[self.width * u + v],
    {
        let n: usize = self.pixels.len();
        let idx: usize = self.width * u + v;
        self.pixels[idx]
    }


    /// Chooses the sample count the output quantization divides by.
    pub fn with_num_samples(self, num_samples: usize) -> (r: ImageData)
        requires
            1 <= num_samples <= u16::MAX,
        ensures
            r.pixels == self.pixels,
            r.width == self.width,
            r.height == self.height,
            r.num_samples == num_samples,
            self.wf() ==> r.wf(),
    {
        ImageData {
            pixels: self.pixels,
            width: self.width,
            height: self.height,
            num_samples: num_samples as u16,
        }
    }

    /// Linearly remaps every non-black pixel from `[r_min, r_max]` to
    /// `[new_min, new_max]` (the contrast stretch applied to depth
    /// buffers). The division is guarded by requiring a nonempty
    /// source range.
    pub fn scale(&mut self, r_min: i64, r_max: i64, new_min: i64, new_max: i64)
        requires
            old(self).wf(),
            r_max != r_min,
            -COLOR_LIMIT <= new_min <= COLOR_LIMIT,
            -COLOR_LIMIT <= new_max <= COLOR_LIMIT,
        ensures
            final(self).wf(),
            final(self).width == old(self).width,
            final(self).height == old(self).height,
            final(self).num_samples == old(self).num_samples,
            final(self).pixels@.len() == old(self).pixels@.len(),
            forall|i: int|
                0 <= i < final(self).pixels@.len() ==> (#[trigger] final(self).pixels@[i])@ == (
                if (old(self).pixels@[i])@ == (C3s { r: 0int, g: 0int, b: 0int }) {
                    (old(self).pixels@[i])@
                } else {
                    scale_color_s(
                        (old(self).pixels@[i])@,
                        r_min as int,
                        r_max as int,
                        new_min as int,
                        new_max as int,
                    )
                }),
    {
        let n: usize = self.pixels.len();
        let mut i: usize = 0;
        while i < n
            invariant
                0 <= i <= n,
                n == self.pixels@.len(),
                self.pixels@.len() == old(self).pixels@.len(),
                self.width == old(self).width,
                self.height == old(self).height,
                self.num_samples == old(self).num_samples,
                self.wf(),
                r_max != r_min,
                -COLOR_LIMIT <= new_min <= COLOR_LIMIT,
                -COLOR_LIMIT <= new_max <= COLOR_LIMIT,
                forall|j: int| i <= j < n ==> self.pixels@[j] == old(self).pixels@[j],
                forall|j: int|
                    0 <= j < i ==> (#[trigger] self.pixels@[j])@ == (
                    if (old(self).pixels@[j])@ == (C3s { r: 0int, g: 0int, b: 0int }) {
                        (old(self).pixels@[j])@
                    } else {
                        scale_color_s(
                            (old(self).pixels@[j])@,
                            r_min as int,
                            r_max as int,
                            new_min as int,
                            new_max as int,
                        )
                    }),
            decreases n - i,
        {
            let p: Color = self.pixels[i];
            let is_black: bool = p.r == 0 && p.g == 0 && p.b == 0;
            if !is_black {
                let scaled = Color {
                    r: scale_channel(p.r, r_min, r_max, new_min, new_max),
                    g: scale_channel(p.g, r_min, r_max, new_min, new_max),
                    b: scale_channel(p.b, r_min, r_max, new_min, new_max),
                };
                self.pixels.set(i, scaled);
            }
            i = i + 1;
        }
    }

    /// The full pixmap text: header, then one line per pixel, rows
    /// written bottom to top. The stride convention `width * u + v`
    /// keeps every pixel in bounds only when the image is at least as
    /// tall as it is wide (it is used square).
    pub fn ppm_bytes(&self) -> (r: Vec<u8>)
        requires
            self.wf(),
            self.width <= self.height || self.width <= 1,
            self.width <= 0xFFFF,
            self.height <= 0xFFFF,
        ensures
            r@ == ppm_header_s(*self) + ppm_rows_s(*self, 0),
    {
        let mut out: Vec<u8> = Vec::new();
        out.push(80);
        out.push(51);
        out.push(10);
        push_decimal(&mut out, self.width as u64);
        out.push(32);
        push_decimal(&mut out, self.height as u64);
        out.push(10);
        push_decimal(&mut out, 255);
        out.push(10);
        proof {
            assert(out@ =~= ppm_header_s(*self));
        }
        let ghost header = out@;
        proof {
            assert(out@ =~= header + ppm_rows_s(*self, self.height as int));
        }
        let mut v: usize = self.height;
        while v > 0
            invariant
                v <= self.height,
                self.wf(),
                self.width <= self.height || self.width <= 1,
                self.width <= 0xFFFF,
                self.height <= 0xFFFF,
                out@ == header + ppm_rows_s(*self, v as int),
            decreases v,
        {
            v = v - 1;
            let ghost row_start = out@;
            proof {
                assert(out@ =~= row_start + ppm_row_s(*self, v as int, 0));
            }
            let mut u: usize = 0;
            while u < self.width
                invariant
                    u <= self.width,
                    v < self.height,
                    self.wf(),
                    self.width <= self.height || self.width <= 1,
                    self.width <= 0xFFFF,
                    self.height <= 0xFFFF,
                    out@ == row_start + ppm_row_s(*self, v as int, u as int),
                decreases self.width - u,
            {
                proof {
                    assert(self.width * u + v < self.width * self.height) by (nonlinear_arith)
                        requires
                            u < self.width,
                            v < self.height,
                            self.width >= 1,
                            self.width <= self.height || self.width <= 1,
                    ;
                }
                let color: Color = self.get(u, v);
                let r_val: i64 = get_ppm_value(color.r, self.num_samples);
                let g_val: i64 = get_ppm_value(color.g, self.num_samples);
                let b_val: i64 = get_ppm_value(color.b, self.num_samples);
                push_decimal(&mut out, r_val as u64);
                out.push(32);
                push_decimal(&mut out, g_val as u64);
                out.push(32);
                push_decimal(&mut out, b_val as u64);
                out.push(10);
                proof {
                    assert(out@ =~= row_start + ppm_row_s(*self, v as int, u + 1 as int));
                }
                u = u + 1;
            }
            proof {
                assert(out@ =~= header + ppm_rows_s(*self, v as int));
            }
        }
        proof {
            assert(out@ =~= ppm_header_s(*self) + ppm_rows_s(*self, 0));
        }
        out
    }
}

} // verus!
