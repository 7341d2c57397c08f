use fbrender::color::{FbError, PixelFormat};
use fbrender::font::{FontWeight, RasterHeight};
use fbrender::screen::{FbInfo, Screen};
use noto_sans_mono_bitmap as noto;

const W: usize = 64;
const H: usize = 48;

fn screen(bg: u8) -> Screen {
    let i = FbInfo {
        width: W,
        height: H,
        stride: W,
        bytes_per_pixel: 1,
        pixel_format: PixelFormat::U8,
    };
    let mut s = Screen::new(vec![0u8; W * H], i).unwrap();
    s.set_bg_intensity(bg);
    s
}

fn noto_raster(c: char) -> noto::RasterizedChar {
    noto::get_raster(c, noto::FontWeight::Regular, noto::RasterHeight::Size16).unwrap()
}

#[test]
fn text_width_is_len_times_glyph_width() {
    let gw = noto::get_raster_width(noto::FontWeight::Regular, noto::RasterHeight::Size16);
    assert_eq!(
        Screen::get_text_width("AB", FontWeight::Regular, RasterHeight::Size16),
        2 * gw
    );
    assert_eq!(Screen::get_text_width("", FontWeight::Regular, RasterHeight::Size16), 0);
    assert_eq!(
        Screen::get_text_width("hello", FontWeight::Regular, RasterHeight::Size16),
        5 * gw
    );
    let gw_bold = noto::get_raster_width(noto::FontWeight::Bold, noto::RasterHeight::Size32);
    assert_eq!(
        Screen::get_text_width("AB", FontWeight::Bold, RasterHeight::Size32),
        2 * gw_bold
    );
}

#[test]
fn char_on_dark_background_keeps_samples() {
    let mut s = screen(0);
    s.write_char('A', 3, 5, FontWeight::Regular, RasterHeight::Size16).unwrap();
    let raster = noto_raster('A');
    for (i, row) in raster.raster().iter().enumerate() {
        for (j, &sample) in row.iter().enumerate() {
            assert_eq!(s.byte_at((5 + i) * W + 3 + j), sample, "sample ({j},{i})");
        }
    }
}

#[test]
fn char_on_light_background_inverts_samples() {
    let mut s = screen(255);
    s.write_char('A', 0, 0, FontWeight::Regular, RasterHeight::Size16).unwrap();
    let raster = noto_raster('A');
    for (i, row) in raster.raster().iter().enumerate() {
        for (j, &sample) in row.iter().enumerate() {
            assert_eq!(s.byte_at(i * W + j), 255 - sample, "sample ({j},{i})");
        }
    }
}

#[test]
fn write_str_advances_by_glyph_width() {
    let mut by_str = screen(0);
    by_str.write_str("AB", 2, 1, FontWeight::Regular, RasterHeight::Size16).unwrap();
    let gw = noto::get_raster_width(noto::FontWeight::Regular, noto::RasterHeight::Size16);
    let mut by_chars = screen(0);
    by_chars.write_char('A', 2, 1, FontWeight::Regular, RasterHeight::Size16).unwrap();
    by_chars.write_char('B', 2 + gw, 1, FontWeight::Regular, RasterHeight::Size16).unwrap();
    for k in 0..by_str.buffer_len() {
        assert_eq!(by_str.byte_at(k), by_chars.byte_at(k));
    }
}

#[test]
fn missing_glyph_is_reported() {
    // The font carries no Greek range.
    assert!(noto::get_raster('Ω', noto::FontWeight::Regular, noto::RasterHeight::Size16).is_none());
    let mut s = screen(0);
    assert_eq!(
        s.write_char('Ω', 0, 0, FontWeight::Regular, RasterHeight::Size16),
        Err(FbError::GlyphUnavailable)
    );
    // The screen is untouched.
    for k in 0..s.buffer_len() {
        assert_eq!(s.byte_at(k), 0);
    }
}

#[test]
fn write_str_stops_at_first_missing_glyph() {
    let mut partial = screen(0);
    assert_eq!(
        partial.write_str("AΩB", 0, 0, FontWeight::Regular, RasterHeight::Size16),
        Err(FbError::GlyphUnavailable)
    );
    let mut only_a = screen(0);
    only_a.write_char('A', 0, 0, FontWeight::Regular, RasterHeight::Size16).unwrap();
    for k in 0..partial.buffer_len() {
        assert_eq!(partial.byte_at(k), only_a.byte_at(k));
    }
}

#[test]
fn text_faults_on_unsupported_format() {
    let i = FbInfo {
        width: W,
        height: H,
        stride: W,
        bytes_per_pixel: 1,
        pixel_format: PixelFormat::Other(3),
    };
    let mut s = Screen::new(vec![0u8; W * H], i).unwrap();
    assert_eq!(
        s.write_str("A", 0, 0, FontWeight::Regular, RasterHeight::Size16),
        Err(FbError::UnsupportedFormat)
    );
    assert_eq!(s.info().pixel_format, PixelFormat::Rgb);
}
