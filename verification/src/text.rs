//! The bitmap-font text renderer: glyph blitting with automatic contrast,
//! strings, and the monospace text metric.

use vstd::prelude::*;
use vstd::string::StrSliceExecFns;

use crate::color::{Color, FbError, spec_gray};
use crate::font::{
    glyph_raster_of, glyph_width_of, raster_glyph, raster_width, FontWeight, Glyph, RasterHeight,
    MAX_GLYPH_WIDTH,
};
use crate::screen::{fatal_format, paint_pixel, FbInfo, Screen};

verus! {

/// Ink intensity for a glyph sample under automatic contrast: on a light
/// background (`bg >= 128`) the sample is inverted to dark ink, on a dark
/// background it is used unchanged as light ink.
pub open spec fn spec_ink(bg: u8, sample: u8) -> u8 {
    if bg < 128 {
        sample
    } else {
        (255 - sample) as u8
    }
}

/// The contrast rule, pinned at the two extreme backgrounds: white inverts
/// every sample, black keeps every sample.
pub proof fn lemma_ink_contrast(sample: u8)
    ensures
        spec_ink(255, sample) == 255 - sample,
        spec_ink(0, sample) == sample,
{
}

/// Runtime contrast rule matching [`spec_ink`].
pub fn ink(bg: u8, sample: u8) -> (v: u8)
    ensures
        v == spec_ink(bg, sample),
{
    if bg < 128 {
        sample
    } else {
        255 - sample
    }
}

/// The buffer after painting the samples `row[j..]` of one glyph row whose
/// leftmost sample sits at `(x, y)`.
pub open spec fn paint_glyph_row(
    bytes: Seq<u8>,
    info: FbInfo,
    bg: u8,
    x: int,
    y: int,
    row: Seq<u8>,
    j: int,
) -> Seq<u8>
    decreases row.len() - j,
{
    if j < 0 || j >= row.len() {
        bytes
    } else {
        paint_glyph_row(
            paint_pixel(bytes, info, x + j, y, spec_gray(spec_ink(bg, row[j]))),
            info,
            bg,
            x,
            y,
            row,
            j + 1,
        )
    }
}

/// The buffer after painting the glyph rows `rows[i..]` of a glyph whose
/// top-left corner sits at `(x, y)`.
pub open spec fn paint_glyph_rows(
    bytes: Seq<u8>,
    info: FbInfo,
    bg: u8,
    x: int,
    y: int,
    rows: Seq<Seq<u8>>,
    i: int,
) -> Seq<u8>
    decreases rows.len() - i,
{
    if i < 0 || i >= rows.len() {
        bytes
    } else {
        paint_glyph_rows(paint_glyph_row(bytes, info, bg, x, y + i, rows[i], 0), info, bg, x, y, rows, i + 1)
    }
}

/// The buffer after blitting a whole glyph at `(x, y)`.
pub open spec fn paint_glyph(
    bytes: Seq<u8>,
    info: FbInfo,
    bg: u8,
    x: int,
    y: int,
    rows: Seq<Seq<u8>>,
) -> Seq<u8> {
    paint_glyph_rows(bytes, info, bg, x, y, rows, 0)
}

/// Whether the font has a glyph for every character of `cs` at this weight
/// and height.
pub open spec fn str_paintable(cs: Seq<char>, weight: int, height: int) -> bool {
    forall|i: int| 0 <= i < cs.len() ==> glyph_raster_of(cs[i], weight, height) is Some
}

/// The buffer after writing the characters `cs[i..]`, the pen starting at
/// `(x, y)` and advancing one glyph width per character; the walk stops at
/// the first character without a glyph.
pub open spec fn paint_str(
    bytes: Seq<u8>,
    info: FbInfo,
    bg: u8,
    cs: Seq<char>,
    i: int,
    x: int,
    y: int,
    weight: int,
    height: int,
) -> Seq<u8>
    decreases cs.len() - i,
{
    if i < 0 || i >= cs.len() {
        bytes
    } else {
        match glyph_raster_of(cs[i], weight, height) {
            Some(rows) => paint_str(
                paint_glyph(bytes, info, bg, x, y, rows),
                info,
                bg,
                cs,
                i + 1,
                x + glyph_width_of(weight, height),
                y,
                weight,
                height,
            ),
            None => bytes,
        }
    }
}

impl Screen {
    /// Blits a rasterized glyph at `(x_pos, y_pos)`: walks the row-major
    /// intensity samples and draws each through the contrast rule; samples
    /// falling outside the buffer clip. With an unsupported stored format it
    /// downgrades the format to `Rgb` and reports the fault without painting.
    #[verifier::loop_isolation(false)]
    pub fn write_rendered_char(&mut self, glyph: &Glyph, x_pos: usize, y_pos: usize) -> (r: Result<
        (),
        FbError,
    >)
        requires
            old(self)@.wf(),
        ensures
            final(self)@.wf(),
            final(self)@.bg == old(self)@.bg,
            old(self)@.info.pixel_format.is_supported() ==> {
                &&& r is Ok
                &&& final(self)@.info == old(self)@.info
                &&& final(self)@.bytes == paint_glyph(
                    old(self)@.bytes,
                    old(self)@.info,
                    old(self)@.bg,
                    x_pos as int,
                    y_pos as int,
                    glyph@,
                )
            },
            !old(self)@.info.pixel_format.is_supported() ==> r == Result::<(), FbError>::Err(
                FbError::UnsupportedFormat,
            ) && final(self)@ == fatal_format(old(self)@),
    {
        match self.check_format() {
            Err(e) => {
                return Err(e);
            },
            Ok(_) => {},
        }
        let ghost info0 = self@.info;
        let ghost bg0 = self@.bg;
        let ghost goal = paint_glyph(self@.bytes, info0, bg0, x_pos as int, y_pos as int, glyph@);
        let nrows = glyph.rows.len();
        let mut i: usize = 0;
        while i < nrows
            invariant
                self@.wf(),
                self@.info == info0,
                self@.bg == bg0,
                i <= nrows,
                paint_glyph_rows(
                    self@.bytes,
                    info0,
                    bg0,
                    x_pos as int,
                    y_pos as int,
                    glyph@,
                    i as int,
                ) == goal,
            decreases nrows - i,
        {
            let row = &glyph.rows[i];
            let ncols = row.len();
            assert(glyph@[i as int] == row@);
            let ghost row_goal = paint_glyph_row(
                self@.bytes,
                info0,
                bg0,
                x_pos as int,
                y_pos as int + i as int,
                row@,
                0,
            );
            let mut j: usize = 0;
            while j < ncols
                invariant
                    self@.wf(),
                    self@.info == info0,
                    self@.bg == bg0,
                    j <= ncols,
                    paint_glyph_row(
                        self@.bytes,
                        info0,
                        bg0,
                        x_pos as int,
                        y_pos as int + i as int,
                        row@,
                        j as int,
                    ) == row_goal,
                decreases ncols - j,
            {
                let sample = row[j];
                let v = ink(self.bg_intensity(), sample);
                if j <= usize::MAX - x_pos && i <= usize::MAX - y_pos {
                    let _ = self.draw_pixel(x_pos + j, y_pos + i, Color::gray(v));
                } else {
                    proof {
                        assert(paint_pixel(
                            self@.bytes,
                            info0,
                            x_pos as int + j as int,
                            y_pos as int + i as int,
                            spec_gray(v),
                        ) == self@.bytes);
                    }
                }
                j += 1;
            }
            proof {
                assert(paint_glyph_rows(
                    self@.bytes,
                    info0,
                    bg0,
                    x_pos as int,
                    y_pos as int,
                    glyph@,
                    i as int + 1,
                ) == goal);
            }
            i += 1;
        }
        Ok(())
    }

    /// Writes one character at `(x_pos, y_pos)`: asks the font rasterizer
    /// for the glyph and blits it. Fails with `UnsupportedFormat` (after the
    /// `Rgb` downgrade) on a bad stored format, and with `GlyphUnavailable`,
    /// leaving the screen untouched, exactly when the font has no glyph for
    /// this combination.
    pub fn write_char(
        &mut self,
        c: char,
        x_pos: usize,
        y_pos: usize,
        weight: FontWeight,
        height: RasterHeight,
    ) -> (r: Result<(), FbError>)
        requires
            old(self)@.wf(),
        ensures
            final(self)@.wf(),
            final(self)@.bg == old(self)@.bg,
            !old(self)@.info.pixel_format.is_supported() ==> r == Result::<(), FbError>::Err(
                FbError::UnsupportedFormat,
            ) && final(self)@ == fatal_format(old(self)@),
            old(self)@.info.pixel_format.is_supported() && glyph_raster_of(
                c,
                weight.code(),
                height.pixels(),
            ) is None ==> r == Result::<(), FbError>::Err(FbError::GlyphUnavailable) && *final(self)
                == *old(self),
            old(self)@.info.pixel_format.is_supported() && glyph_raster_of(
                c,
                weight.code(),
                height.pixels(),
            ) is Some ==> {
                &&& r is Ok
                &&& final(self)@.info == old(self)@.info
                &&& final(self)@.bytes == paint_glyph(
                    old(self)@.bytes,
                    old(self)@.info,
                    old(self)@.bg,
                    x_pos as int,
                    y_pos as int,
                    glyph_raster_of(c, weight.code(), height.pixels()).unwrap(),
                )
            },
    {
        match self.check_format() {
            Err(e) => {
                return Err(e);
            },
            Ok(_) => {},
        }
        match raster_glyph(c, weight, height) {
            None => Err(FbError::GlyphUnavailable),
            Some(glyph) => self.write_rendered_char(&glyph, x_pos, y_pos),
        }
    }

    /// Writes a string left to right from `(x_pos, y_pos)`, advancing the
    /// pen by the fixed glyph width per character (monospace, independent of
    /// each character's ink extent). Succeeds exactly when the format is
    /// supported and every character has a glyph; at the first character
    /// without one it stops, leaving the earlier characters painted.
    #[verifier::loop_isolation(false)]
    pub fn write_str(
        &mut self,
        s: &str,
        x_pos: usize,
        y_pos: usize,
        weight: FontWeight,
        height: RasterHeight,
    ) -> (r: Result<(), FbError>)
        requires
            old(self)@.wf(),
            x_pos + s@.len() * MAX_GLYPH_WIDTH <= usize::MAX,
        ensures
            final(self)@.wf(),
            final(self)@.bg == old(self)@.bg,
            !old(self)@.info.pixel_format.is_supported() ==> r == Result::<(), FbError>::Err(
                FbError::UnsupportedFormat,
            ) && final(self)@ == fatal_format(old(self)@),
            old(self)@.info.pixel_format.is_supported() ==> {
                &&& final(self)@.info == old(self)@.info
                &&& final(self)@.bytes == paint_str(
                    old(self)@.bytes,
                    old(self)@.info,
                    old(self)@.bg,
                    s@,
                    0,
                    x_pos as int,
                    y_pos as int,
                    weight.code(),
                    height.pixels(),
                )
                &&& r is Ok <==> str_paintable(s@, weight.code(), height.pixels())
                &&& r is Err ==> r == Result::<(), FbError>::Err(FbError::GlyphUnavailable)
            },
    {
        match self.check_format() {
            Err(e) => {
                return Err(e);
            },
            Ok(_) => {},
        }
        let ghost info0 = self@.info;
        let ghost bg0 = self@.bg;
        let ghost goal = paint_str(
            self@.bytes,
            info0,
            bg0,
            s@,
            0,
            x_pos as int,
            y_pos as int,
            weight.code(),
            height.pixels(),
        );
        let n = s.unicode_len();
        let gw = raster_width(weight, height);
        let mut i: usize = 0;
        let mut pen: usize = x_pos;
        while i < n
            invariant
                self@.wf(),
                self@.info == info0,
                self@.bg == bg0,
                i <= n,
                pen == x_pos + i * gw,
                forall|k: int| 0 <= k < i ==> glyph_raster_of(s@[k], weight.code(), height.pixels()) is Some,
                paint_str(
                    self@.bytes,
                    info0,
                    bg0,
                    s@,
                    i as int,
                    pen as int,
                    y_pos as int,
                    weight.code(),
                    height.pixels(),
                ) == goal,
            decreases n - i,
        {
            let c = s.get_char(i);
            proof {
                assert(i * gw <= n * gw && n * gw <= n * MAX_GLYPH_WIDTH) by (nonlinear_arith)
                    requires
                        0 <= i < n,
                        0 <= gw <= MAX_GLYPH_WIDTH,
                ;
                assert((i + 1) * gw == i * gw + gw) by (nonlinear_arith);
                assert((i + 1) * gw <= n * gw) by (nonlinear_arith)
                    requires
                        i + 1 <= n,
                        0 <= gw,
                ;
            }
            match self.write_char(c, pen, y_pos, weight, height) {
                Err(e) => {
                    return Err(e);
                },
                Ok(_) => {},
            }
            pen = pen + gw;
            i += 1;
        }
        Ok(())
    }

    /// Width in pixels of `s` rendered at this weight and height: the
    /// character count times the fixed glyph width. A pure metric; renders
    /// nothing.
    pub fn get_text_width(s: &str, weight: FontWeight, height: RasterHeight) -> (w: usize)
        requires
            s@.len() * MAX_GLYPH_WIDTH <= usize::MAX,
        ensures
            w == s@.len() * glyph_width_of(weight.code(), height.pixels()),
    {
        let n = s.unicode_len();
        let gw = raster_width(weight, height);
        proof {
            assert(n * gw <= n * MAX_GLYPH_WIDTH) by (nonlinear_arith)
                requires
                    0 <= n,
                    0 <= gw <= MAX_GLYPH_WIDTH,
            ;
        }
        n * gw
    }
}

} // verus!
