//! RGB radiance values in fixed point, and their quantization to bytes.
//!
//! Channels are unbounded during accumulation (up to the arithmetic's
//! saturation bound) and are gamma-corrected and clamped only when a pixel is
//! quantized for output.

use vstd::prelude::*;
use crate::fx::{fxs_add, fxs_mul, fxs_sqrt, fxs_clamp, tdiv_s, fx_add, fx_mul, fx_sqrt, fx_clamp, SCALE};
use crate::vec3::Vec3;
use crate::util::{Rng, spec_rand_unit, spec_rand_range, spec_rng_next_state};

verus! {

#[derive(Clone, Copy, Debug, PartialEq, Eq, Structural)]
pub struct Color {
    pub r: i64,
    pub g: i64,
    pub b: i64,
}

pub open spec fn spec_cadd(a: Color, b: Color) -> Color {
    Color {
        r: fxs_add(a.r as int, b.r as int) as i64,
        g: fxs_add(a.g as int, b.g as int) as i64,
        b: fxs_add(a.b as int, b.b as int) as i64,
    }
}

/// Componentwise product: attenuation of one color by another.
pub open spec fn spec_cmul(a: Color, b: Color) -> Color {
    Color {
        r: fxs_mul(a.r as int, b.r as int) as i64,
        g: fxs_mul(a.g as int, b.g as int) as i64,
        b: fxs_mul(a.b as int, b.b as int) as i64,
    }
}

/// `k * c` for a fixed-point scalar `k`.
pub open spec fn spec_cscale(k: int, c: Color) -> Color {
    Color {
        r: fxs_mul(k, c.r as int) as i64,
        g: fxs_mul(k, c.g as int) as i64,
        b: fxs_mul(k, c.b as int) as i64,
    }
}

/// The color with three channels drawn uniformly from `[0, 1)` at state `s`,
/// and the state after the three draws.
pub open spec fn spec_color_random(s: u64) -> (Color, u64) {
    let s1 = spec_rng_next_state(s);
    let s2 = spec_rng_next_state(s1);
    let s3 = spec_rng_next_state(s2);
    (Color { r: spec_rand_unit(s), g: spec_rand_unit(s1), b: spec_rand_unit(s2) }, s3)
}

/// As `spec_color_random`, with channels in `[min, max)`.
pub open spec fn spec_color_random_range(s: u64, min: i64, max: i64) -> (Color, u64) {
    let s1 = spec_rng_next_state(s);
    let s2 = spec_rng_next_state(s1);
    let s3 = spec_rng_next_state(s2);
    (
        Color {
            r: spec_rand_range(s, min, max),
            g: spec_rand_range(s1, min, max),
            b: spec_rand_range(s2, min, max),
        },
        s3,
    )
}

impl Color {
    pub fn new(r: i64, g: i64, b: i64) -> (c: Color)
        ensures
            c == (Color { r, g, b }),
    {
        Color { r, g, b }
    }

    pub fn random(rng: &mut Rng) -> (c: Color)
        ensures
            (c, final(rng).state) == spec_color_random(old(rng).state),
    {
        let r: i64 = rng.rand_unit();
        let g: i64 = rng.rand_unit();
        let b: i64 = rng.rand_unit();
        Color { r, g, b }
    }

    pub fn random_range(rng: &mut Rng, min: i64, max: i64) -> (c: Color)
        ensures
            (c, final(rng).state) == spec_color_random_range(old(rng).state, min, max),
    {
        let r: i64 = crate::util::random_f64_range(rng, min, max);
        let g: i64 = crate::util::random_f64_range(rng, min, max);
        let b: i64 = crate::util::random_f64_range(rng, min, max);
        Color { r, g, b }
    }

    pub fn add(self, other: Color) -> (c: Color)
        ensures
            c == spec_cadd(self, other),
    {
        Color {
            r: fx_add(self.r, other.r),
            g: fx_add(self.g, other.g),
            b: fx_add(self.b, other.b),
        }
    }

    pub fn mul(self, other: Color) -> (c: Color)
        ensures
            c == spec_cmul(self, other),
    {
        Color {
            r: fx_mul(self.r, other.r),
            g: fx_mul(self.g, other.g),
            b: fx_mul(self.b, other.b),
        }
    }

    /// `k * self` for a fixed-point scalar.
    pub fn scale(self, k: i64) -> (c: Color)
        ensures
            c == spec_cscale(k as int, self),
    {
        Color { r: fx_mul(k, self.r), g: fx_mul(k, self.g), b: fx_mul(k, self.b) }
    }

    pub fn add_assign(&mut self, other: Color)
        ensures
            *final(self) == spec_cadd(*old(self), other),
    {
        *self = self.add(other);
    }
}

impl From<Vec3> for Color {
    fn from(v: Vec3) -> (c: Color) {
        Color { r: v.x, g: v.y, b: v.z }
    }
}

impl vstd::std_specs::convert::FromSpecImpl<Vec3> for Color {
    open spec fn obeys_from_spec() -> bool {
        true
    }

    open spec fn from_spec(v: Vec3) -> Color {
        Color { r: v.x, g: v.y, b: v.z }
    }
}

/// Square-root tone curve on a nonnegative channel.
pub open spec fn spec_linear_to_gamma(c: int) -> int {
    if c > 0 {
        fxs_sqrt(c)
    } else {
        0
    }
}

/// The output byte of one channel: gamma-correct, clamp into `[0, 0.999]`,
/// scale by 256 and truncate.
pub open spec fn spec_channel_byte(c: int) -> int {
    let cl = fxs_clamp(spec_linear_to_gamma(c), 0, 999_000);
    tdiv_s(fxs_mul(cl, 256 * SCALE as int), SCALE as int)
}

fn linear_to_gamma(c: i64) -> (r: i64)
    ensures
        r as int == spec_linear_to_gamma(c as int),
{
    if c > 0 {
        fx_sqrt(c)
    } else {
        0
    }
}

/// Quantize one pixel to its three output bytes.
pub fn color_bytes(pixel_color: Color) -> (bytes: (u8, u8, u8))
    ensures
        bytes.0 as int == spec_channel_byte(pixel_color.r as int),
        bytes.1 as int == spec_channel_byte(pixel_color.g as int),
        bytes.2 as int == spec_channel_byte(pixel_color.b as int),
{
    (
        channel_byte(pixel_color.r),
        channel_byte(pixel_color.g),
        channel_byte(pixel_color.b),
    )
}

fn channel_byte(c: i64) -> (byte: u8)
    ensures
        byte as int == spec_channel_byte(c as int),
{
    let cl: i64 = fx_clamp(linear_to_gamma(c), 0, 999_000);
    let v: i64 = fx_mul(cl, 256 * SCALE);
    ((v as u64) / (SCALE as u64)) as u8
}

} // verus!
