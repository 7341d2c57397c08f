//! Colors, pixel formats and the error type of the rendering engine.

use vstd::prelude::*;

verus! {

/// An RGB color: one 8-bit intensity per channel.
#[derive(Clone, Copy, PartialEq, Eq, Structural, Debug)]
pub struct Color {
    pub r: u8,
    pub g: u8,
    pub b: u8,
}

impl Color {
    /// The gray tone whose three channels all carry `v`.
    pub fn gray(v: u8) -> (c: Color)
        ensures
            c == spec_gray(v),
    {
        Color { r: v, g: v, b: v }
    }
}

/// The gray tone whose three channels all carry `v`.
pub open spec fn spec_gray(v: u8) -> Color {
    Color { r: v, g: v, b: v }
}

/// Per-pixel channel layout of the framebuffer. `Rgb`, `Bgr` and `U8`
/// (single-channel grayscale) are supported; any other layout reported by the
/// boot-time hand-off is carried as `Other` and is fatal to draw with.
#[derive(Clone, Copy, PartialEq, Eq, Structural, Debug)]
pub enum PixelFormat {
    Rgb,
    Bgr,
    U8,
    Other(u8),
}

impl PixelFormat {
    /// Whether the codec can encode pixels in this format.
    pub open spec fn is_supported(self) -> bool {
        self == PixelFormat::Rgb || self == PixelFormat::Bgr || self == PixelFormat::U8
    }

    /// Runtime test matching [`PixelFormat::is_supported`].
    pub fn supported(&self) -> (r: bool)
        ensures
            r == self.is_supported(),
    {
        match self {
            PixelFormat::Rgb => true,
            PixelFormat::Bgr => true,
            PixelFormat::U8 => true,
            PixelFormat::Other(_) => false,
        }
    }
}

/// Failures of the rendering engine.
#[derive(Clone, Copy, PartialEq, Eq, Structural, Debug)]
pub enum FbError {
    /// The stored pixel format is not one the codec supports. The writer
    /// downgrades the stored format to `Rgb` before reporting this, so that a
    /// later diagnostic draw cannot hit the same fault again.
    UnsupportedFormat,
    /// The font rasterizer has no glyph for the requested combination of
    /// character, weight and height.
    GlyphUnavailable,
    /// The buffer handed to `Screen::new` does not match the descriptor, or
    /// the descriptor itself is inconsistent.
    InvalidGeometry,
}

} // verus!
