//! Colors: linear RGB accumulated in fixed point, then normalized,
//! gamma-corrected, clamped and quantized into 8-bit channels written as
//! text.

use vstd::prelude::*;
use crate::fixed::{
    SCALE, quot, sqrt_floor, isqrt_u128, lemma_sqrt_floor, lemma_sqrt_floor_le,
    lemma_quot_abs_bound,
};
use crate::interval::{Interval, spec_clamp};
use crate::text::{dec_digits, push_decimal};
use crate::vector3d::Vector3D;

verus! {

/// Alias for a color represented as a 3D vector: linear RGB where one whole
/// unit is full intensity, unclamped during accumulation.
pub type Color = Vector3D;

/// Gamma-2 correction of a nonnegative fixed-point channel: the real square
/// root of `v / SCALE` is `sqrt(v * SCALE) / SCALE`, rounded down.
pub open spec fn spec_gamma(v: int) -> int {
    if v < 0 {
        0
    } else {
        sqrt_floor(v * SCALE)
    }
}

/// The 8-bit value of one accumulated channel: averaged over the samples,
/// gamma corrected, clamped to `[0, 0.999]` and scaled by `255.999`.
pub open spec fn quantize_channel(c: int, samples: int) -> int {
    let averaged = quot(c, samples);
    let gamma = spec_gamma(averaged);
    let clamped = spec_clamp(Interval { min: 0, max: 999 }, gamma);
    quot(clamped * 255_999, 1_000_000)
}

/// The text line for one accumulated color: the three quantized channels in
/// decimal, space-separated and newline-terminated.
pub open spec fn color_line(c: Color, samples: int) -> Seq<char> {
    dec_digits(quantize_channel(c.x as int, samples)) + seq![' '] + dec_digits(
        quantize_channel(c.y as int, samples),
    ) + seq![' '] + dec_digits(quantize_channel(c.z as int, samples)) + seq!['\n']
}

/// A quantized channel is always a displayable 8-bit value.
pub proof fn lemma_quantize_range(c: int, samples: int)
    ensures
        0 <= quantize_channel(c, samples) <= 255,
{
    let averaged = quot(c, samples);
    let gamma = spec_gamma(averaged);
    let clamped = spec_clamp(Interval { min: 0, max: 999 }, gamma);
    if averaged >= 0 {
        lemma_sqrt_floor(averaged * SCALE);
    }
    assert(0 <= clamped <= 999);
    assert(0 <= clamped * 255_999 <= 999 * 255_999) by (nonlinear_arith)
        requires
            0 <= clamped <= 999,
    ;
    vstd::arithmetic::div_mod::lemma_multiply_divide_lt(clamped * 255_999, 1_000_000, 256);
    vstd::arithmetic::div_mod::lemma_div_pos_is_pos(clamped * 255_999, 1_000_000);
}

impl Color {
    /// Appends the text line for this accumulated color, normalized to the
    /// given sample count, to the output.
    pub fn write(self, out: &mut String, samples_per_pixel: u16)
        requires
            samples_per_pixel > 0,
            0 <= self.x,
            0 <= self.y,
            0 <= self.z,
        ensures
            final(out)@ == old(out)@ + color_line(self, samples_per_pixel as int),
    {
        let r: u8 = Self::channel_value(self.x, samples_per_pixel);
        let g: u8 = Self::channel_value(self.y, samples_per_pixel);
        let b: u8 = Self::channel_value(self.z, samples_per_pixel);
        push_decimal(out, r as u32);
        out.append(" ");
        push_decimal(out, g as u32);
        out.append(" ");
        push_decimal(out, b as u32);
        out.append("\n");
        proof {
            reveal_strlit(" ");
            reveal_strlit("\n");
            assert(out@ =~= old(out)@ + color_line(self, samples_per_pixel as int));
        }
    }

    /// One channel taken through the whole output mapping.
    fn channel_value(c: i64, samples: u16) -> (q: u8)
        requires
            samples > 0,
            c >= 0,
        ensures
            q as int == quantize_channel(c as int, samples as int),
    {
        proof {
            lemma_quot_abs_bound(c as int, samples as int, i64::MAX as int);
            lemma_quantize_range(c as int, samples as int);
        }
        let averaged: i64 = c / (samples as i64);
        let gamma: i64 = Self::linear_to_gamma(averaged);
        let limits = Interval::new(0, 999);
        let clamped: i64 = limits.clamp(gamma);
        proof {
            assert(0 <= clamped <= 999);
        }
        ((clamped * 255_999) / 1_000_000) as u8
    }

    /// Convert from linear color space into gamma color space: the
    /// fixed-point square root of a nonnegative channel.
    fn linear_to_gamma(linear_component: i64) -> (r: i64)
        requires
            linear_component >= 0,
        ensures
            r as int == spec_gamma(linear_component as int),
            r >= 0,
    {
        proof {
            assert((linear_component as int) * (SCALE as int) <= 100_000_000_000int
                * 100_000_000_000int) by (nonlinear_arith)
                requires
                    0 <= (linear_component as int) && (linear_component as int)
                        < 0x8000_0000_0000_0000,
            ;
        }
        let wide: u128 = (linear_component as u128) * (SCALE as u128);
        let root: u128 = isqrt_u128(wide);
        proof {
            assert(wide as int == (linear_component as int) * (SCALE as int));
            lemma_sqrt_floor_le(wide as int, 100_000_000_000);
        }
        root as i64
    }
}

} // verus!
