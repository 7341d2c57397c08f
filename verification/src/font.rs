//! The font-rasterizer boundary: weights and heights the rasterizer offers,
//! the glyph bitmaps it hands back, and the two calls into it.

use vstd::prelude::*;

verus! {

/// Font weights the rasterizer offers.
#[derive(Clone, Copy, PartialEq, Eq, Structural, Debug)]
pub enum FontWeight {
    Light,
    Regular,
    Bold,
}

impl FontWeight {
    /// Numeric stand-in used by the glyph naming functions.
    pub open spec fn code(self) -> int {
        match self {
            FontWeight::Light => 0,
            FontWeight::Regular => 1,
            FontWeight::Bold => 2,
        }
    }
}

/// Raster heights the rasterizer offers.
#[derive(Clone, Copy, PartialEq, Eq, Structural, Debug)]
pub enum RasterHeight {
    Size16,
    Size20,
    Size24,
    Size32,
}

impl RasterHeight {
    /// Height in pixel rows of every glyph rasterized at this setting.
    pub open spec fn pixels(self) -> int {
        match self {
            RasterHeight::Size16 => 16,
            RasterHeight::Size20 => 20,
            RasterHeight::Size24 => 24,
            RasterHeight::Size32 => 32,
        }
    }

    /// Runtime value matching [`RasterHeight::pixels`].
    pub fn val(self) -> (v: usize)
        ensures
            v == self.pixels(),
    {
        match self {
            RasterHeight::Size16 => 16,
            RasterHeight::Size20 => 20,
            RasterHeight::Size24 => 24,
            RasterHeight::Size32 => 32,
        }
    }
}

/// No glyph of this font is wider than this many pixels (the rasterizer's
/// widths are 7, 9, 11 and 14).
pub const MAX_GLYPH_WIDTH: usize = 16;

/// Width in pixels of every glyph at a weight (by its
/// [`FontWeight::code`]) and height (by its [`RasterHeight::pixels`]): the
/// font is monospace, so the width depends on those two settings alone.
/// Computed by the font rasterizer.
pub uninterp spec fn glyph_width_of(weight: int, height: int) -> int;

/// The raster the font holds for a character at a weight (by its
/// [`FontWeight::code`]) and height (by its [`RasterHeight::pixels`]):
/// row-major per-pixel intensity bytes, or `None` where the font has no
/// glyph for that character.
pub uninterp spec fn glyph_raster_of(c: char, weight: int, height: int) -> Option<Seq<Seq<u8>>>;

/// A rasterized glyph: one row of intensity bytes per pixel row.
pub struct Glyph {
    /// Row-major intensity samples, one byte per pixel.
    pub rows: Vec<Vec<u8>>,
}

impl View for Glyph {
    type V = Seq<Seq<u8>>;

    open spec fn view(&self) -> Seq<Seq<u8>> {
        self.rows@.map_values(|r: Vec<u8>| r@)
    }
}

/// Relies on `noto_sans_mono_bitmap::get_raster_width`: the width of every
/// glyph at one weight and height is a single per-combination constant of
/// the font, and no width of this font exceeds 14.
#[verifier::external_body]
pub(crate) fn raster_width(weight: FontWeight, height: RasterHeight) -> (w: usize)
    ensures
        w == glyph_width_of(weight.code(), height.pixels()),
        1 <= w <= MAX_GLYPH_WIDTH,
{
    let fw = match weight {
        FontWeight::Light => noto_sans_mono_bitmap::FontWeight::Light,
        FontWeight::Regular => noto_sans_mono_bitmap::FontWeight::Regular,
        FontWeight::Bold => noto_sans_mono_bitmap::FontWeight::Bold,
    };
    let rh = match height {
        RasterHeight::Size16 => noto_sans_mono_bitmap::RasterHeight::Size16,
        RasterHeight::Size20 => noto_sans_mono_bitmap::RasterHeight::Size20,
        RasterHeight::Size24 => noto_sans_mono_bitmap::RasterHeight::Size24,
        RasterHeight::Size32 => noto_sans_mono_bitmap::RasterHeight::Size32,
    };
    noto_sans_mono_bitmap::get_raster_width(fw, rh)
}

/// Relies on `noto_sans_mono_bitmap::get_raster`: whether a glyph exists and
/// what its raster holds depend only on the character, weight and height; a
/// returned raster has one row per pixel of the raster height, each row one
/// byte per pixel of the glyph width.
#[verifier::external_body]
pub(crate) fn raster_glyph(c: char, weight: FontWeight, height: RasterHeight) -> (g: Option<
    Glyph,
>)
    ensures
        g is Some <==> glyph_raster_of(c, weight.code(), height.pixels()) is Some,
        g is Some ==> g.unwrap()@ == glyph_raster_of(c, weight.code(), height.pixels()).unwrap(),
        g is Some ==> g.unwrap()@.len() == height.pixels(),
        g is Some ==> forall|i: int|
            0 <= i < g.unwrap()@.len() ==> (#[trigger] g.unwrap()@[i]).len() == glyph_width_of(
                weight.code(),
                height.pixels(),
            ),
{
    let fw = match weight {
        FontWeight::Light => noto_sans_mono_bitmap::FontWeight::Light,
        FontWeight::Regular => noto_sans_mono_bitmap::FontWeight::Regular,
        FontWeight::Bold => noto_sans_mono_bitmap::FontWeight::Bold,
    };
    let rh = match height {
        RasterHeight::Size16 => noto_sans_mono_bitmap::RasterHeight::Size16,
        RasterHeight::Size20 => noto_sans_mono_bitmap::RasterHeight::Size20,
        RasterHeight::Size24 => noto_sans_mono_bitmap::RasterHeight::Size24,
        RasterHeight::Size32 => noto_sans_mono_bitmap::RasterHeight::Size32,
    };
    noto_sans_mono_bitmap::get_raster(c, fw, rh).map(
        |r| Glyph { rows: r.raster().iter().map(|row| row.to_vec()).collect() },
    )
}

} // verus!
