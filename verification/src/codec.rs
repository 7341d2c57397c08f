//! Pixel-format codec: the pure mapping from a color to the byte sequence a
//! pixel slot holds in a given format.

use vstd::prelude::*;
use vstd::arithmetic::div_mod::{lemma_div_is_ordered, lemma_fundamental_div_mod_converse};

use crate::color::{Color, PixelFormat};

verus! {

/// The luminance byte of a color: `round(0.2989*R + 0.5870*G + 0.1140*B)`,
/// computed exactly in fixed-point (the three weights are exact four-digit
/// decimals, and adding 5000 before dividing by 10000 rounds half up).
pub open spec fn spec_luma(c: Color) -> u8 {
    ((2989 * (c.r as int) + 5870 * (c.g as int) + 1140 * (c.b as int) + 5000) / 10000) as u8
}

/// Byte `k` of a pixel encoded in `fmt`: the channels in format order first,
/// zero in every remaining byte.
pub open spec fn spec_channel(c: Color, fmt: PixelFormat, k: int) -> u8 {
    match fmt {
        PixelFormat::Rgb => if k == 0 { c.r } else if k == 1 { c.g } else if k == 2 { c.b } else { 0 },
        PixelFormat::Bgr => if k == 0 { c.b } else if k == 1 { c.g } else if k == 2 { c.r } else { 0 },
        PixelFormat::U8 => if k == 0 { spec_luma(c) } else { 0 },
        PixelFormat::Other(_) => 0,
    }
}

/// The `bpp`-byte encoding of `c` in `fmt`: the format's channel order,
/// truncated or zero-padded to exactly `bpp` bytes.
pub open spec fn spec_encode(c: Color, fmt: PixelFormat, bpp: nat) -> Seq<u8> {
    Seq::new(bpp, |k: int| spec_channel(c, fmt, k))
}

/// The luminance sum before division never exceeds this, so the fixed-point
/// computation fits comfortably in 32 bits.
pub proof fn lemma_luma_bounds(c: Color)
    ensures
        0 <= 2989 * (c.r as int) + 5870 * (c.g as int) + 1140 * (c.b as int) + 5000 <= 2554745,
        0 <= spec_luma(c) <= 255,
{
    let sum = 2989 * (c.r as int) + 5870 * (c.g as int) + 1140 * (c.b as int) + 5000;
    assert(sum <= 2554745);
    lemma_div_is_ordered(sum, 2554745, 10000);
    assert(2554745int / 10000 == 255);
    lemma_div_is_ordered(0, sum, 10000);
}

/// The luminance of a gray tone is the tone itself: the three weights sum to
/// 0.9999 and the half-up rounding restores the missing ten-thousandth.
pub proof fn lemma_luma_gray(v: u8)
    ensures
        spec_luma(crate::color::spec_gray(v)) == v,
{
    let sum = 2989 * (v as int) + 5870 * (v as int) + 1140 * (v as int) + 5000;
    assert(sum == 10000 * (v as int) + (5000 - (v as int)));
    lemma_fundamental_div_mod_converse(sum, 10000, v as int, 5000 - (v as int));
}

/// Executable luminance computation, exact against [`spec_luma`].
pub fn luminance(c: Color) -> (v: u8)
    ensures
        v == spec_luma(c),
{
    proof {
        lemma_luma_bounds(c);
    }
    let sum: u32 = 2989 * (c.r as u32) + 5870 * (c.g as u32) + 1140 * (c.b as u32) + 5000;
    (sum / 10000) as u8
}

/// Encodes `color` for a pixel slot of `bytes_per_pixel` bytes in the given
/// supported format; the result holds exactly `bytes_per_pixel` bytes.
pub fn encode(color: Color, format: PixelFormat, bytes_per_pixel: usize) -> (out: Vec<u8>)
    requires
        format.is_supported(),
    ensures
        out@ == spec_encode(color, format, bytes_per_pixel as nat),
        out@.len() == bytes_per_pixel,
{
    let (b0, b1, b2): (u8, u8, u8) = match format {
        PixelFormat::Rgb => (color.r, color.g, color.b),
        PixelFormat::Bgr => (color.b, color.g, color.r),
        PixelFormat::U8 => (luminance(color), 0, 0),
        PixelFormat::Other(_) => (0, 0, 0),
    };
    let mut out: Vec<u8> = Vec::new();
    let mut k: usize = 0;
    while k < bytes_per_pixel
        invariant
            k <= bytes_per_pixel,
            out@.len() == k,
            b0 == spec_channel(color, format, 0),
            b1 == spec_channel(color, format, 1),
            b2 == spec_channel(color, format, 2),
            forall|i: int| 0 <= i < k ==> out@[i] == spec_channel(color, format, i),
        decreases bytes_per_pixel - k,
    {
        let byte = if k == 0 {
            b0
        } else if k == 1 {
            b1
        } else if k == 2 {
            b2
        } else {
            0
        };
        out.push(byte);
        k += 1;
    }
    proof {
        assert(out@ =~= spec_encode(color, format, bytes_per_pixel as nat));
    }
    out
}

/// For every color and supported format, the encoding carries the channels in
/// the format's documented order and zero elsewhere.
pub proof fn lemma_encode_channel_order(c: Color, bpp: nat)
    ensures
        forall|k: int| 0 <= k < bpp ==> spec_encode(c, PixelFormat::Rgb, bpp)[k]
            == (if k == 0 { c.r } else if k == 1 { c.g } else if k == 2 { c.b } else { 0 }),
        forall|k: int| 0 <= k < bpp ==> spec_encode(c, PixelFormat::Bgr, bpp)[k]
            == (if k == 0 { c.b } else if k == 1 { c.g } else if k == 2 { c.r } else { 0 }),
        forall|k: int| 0 <= k < bpp ==> spec_encode(c, PixelFormat::U8, bpp)[k]
            == (if k == 0 { spec_luma(c) } else { 0 }),
{
}

} // verus!
