//! Verified rendering engine for a memory-mapped pixel buffer: pixel-format
//! encoding, a validated pixel-write primitive, Bresenham line rasterization,
//! bitmap-font text rendering, and background management.

pub mod codec;
pub mod color;
pub mod font;
pub mod line;
pub mod screen;
pub mod text;

use vstd::prelude::*;

verus! {

} // verus!
