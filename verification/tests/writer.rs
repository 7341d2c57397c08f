use fbrender::color::{Color, FbError, PixelFormat};
use fbrender::screen::{FbInfo, Screen};

fn info(width: usize, height: usize, stride: usize, bpp: usize, fmt: PixelFormat) -> FbInfo {
    FbInfo { width, height, stride, bytes_per_pixel: bpp, pixel_format: fmt }
}

fn gray_screen(width: usize, height: usize, stride: usize) -> Screen {
    let i = info(width, height, stride, 1, PixelFormat::U8);
    Screen::new(vec![0u8; height * stride], i).unwrap()
}

fn bytes_of(s: &Screen) -> Vec<u8> {
    let mut out = Vec::new();
    for i in 0..s.buffer_len() {
        out.push(s.byte_at(i));
    }
    out
}

#[test]
fn new_validates_geometry() {
    // stride below width
    assert_eq!(
        Screen::new(vec![0u8; 100], info(10, 10, 9, 1, PixelFormat::U8)).err(),
        Some(FbError::InvalidGeometry)
    );
    // zero bytes per pixel
    assert_eq!(
        Screen::new(vec![0u8; 100], info(10, 10, 10, 0, PixelFormat::U8)).err(),
        Some(FbError::InvalidGeometry)
    );
    // wrong buffer length
    assert_eq!(
        Screen::new(vec![0u8; 99], info(10, 10, 10, 1, PixelFormat::U8)).err(),
        Some(FbError::InvalidGeometry)
    );
    assert!(Screen::new(vec![0u8; 100], info(10, 10, 10, 1, PixelFormat::U8)).is_ok());
}

#[test]
fn new_starts_white() {
    let s = Screen::new(vec![0u8; 60], info(4, 5, 6, 2, PixelFormat::Rgb)).unwrap();
    assert_eq!(s.bg_intensity(), 255);
    assert_eq!(s.width(), 4);
    assert_eq!(s.height(), 5);
    assert_eq!(s.buffer_len(), 60);
    assert!(bytes_of(&s).iter().all(|&b| b == 255));
}

#[test]
fn draw_pixel_writes_encoded_bytes_at_offset() {
    let i = info(4, 3, 5, 3, PixelFormat::Bgr);
    let mut s = Screen::new(vec![0u8; 3 * 5 * 3], i).unwrap();
    s.draw_pixel(2, 1, Color { r: 10, g: 20, b: 30 }).unwrap();
    let off = (1 * 5 + 2) * 3;
    // Re-reading the bytes at the computed offset returns the encoding.
    assert_eq!(s.byte_at(off), 30);
    assert_eq!(s.byte_at(off + 1), 20);
    assert_eq!(s.byte_at(off + 2), 10);
    // Every other byte still holds the cleared background.
    for k in 0..s.buffer_len() {
        if k < off || k >= off + 3 {
            assert_eq!(s.byte_at(k), 255);
        }
    }
}

#[test]
fn draw_pixel_clips_out_of_range() {
    let mut s = gray_screen(4, 3, 5);
    let before = bytes_of(&s);
    assert!(s.draw_pixel(4, 0, Color { r: 9, g: 9, b: 9 }).is_ok());
    assert!(s.draw_pixel(0, 3, Color { r: 9, g: 9, b: 9 }).is_ok());
    assert!(s.draw_pixel(1000, 1000, Color { r: 9, g: 9, b: 9 }).is_ok());
    assert_eq!(bytes_of(&s), before);
}

#[test]
fn unsupported_format_downgrades_then_fails() {
    let i = info(4, 3, 4, 1, PixelFormat::Other(7));
    let mut s = Screen::new(vec![0u8; 12], i).unwrap();
    let before = bytes_of(&s);
    // First draw faults, but only after the format fell back to Rgb.
    assert_eq!(s.draw_pixel(0, 0, Color { r: 1, g: 1, b: 1 }), Err(FbError::UnsupportedFormat));
    assert_eq!(s.info().pixel_format, PixelFormat::Rgb);
    assert_eq!(bytes_of(&s), before);
    // A later (diagnostic) draw goes through on the fallback format.
    assert!(s.draw_pixel(0, 0, Color { r: 1, g: 1, b: 1 }).is_ok());
    assert_eq!(s.byte_at(0), 1);
}

#[test]
fn clear_fills_with_one_byte() {
    let mut s = gray_screen(4, 3, 5);
    s.clear_grayscale(42);
    assert!(bytes_of(&s).iter().all(|&b| b == 42));
    // clear() uses the stored background intensity.
    s.clear();
    assert!(bytes_of(&s).iter().all(|&b| b == 255));
}

#[test]
fn set_bg_intensity_twice_equals_once() {
    let mut once = gray_screen(6, 4, 7);
    let mut twice = gray_screen(6, 4, 7);
    once.set_bg_intensity(100);
    twice.set_bg_intensity(100);
    twice.set_bg_intensity(100);
    assert_eq!(once.bg_intensity(), twice.bg_intensity());
    assert_eq!(bytes_of(&once), bytes_of(&twice));
    assert!(bytes_of(&once).iter().all(|&b| b == 100));
}

#[test]
fn draw_rectangle_fills_foreground_tone() {
    let mut s = gray_screen(6, 5, 6);
    s.set_bg_intensity(200);
    s.draw_rectangle(1, 2, 3, 2).unwrap();
    for y in 0..5usize {
        for x in 0..6usize {
            let expected = if (1..4).contains(&x) && (2..4).contains(&y) { 55 } else { 200 };
            assert_eq!(s.byte_at(y * 6 + x), expected, "pixel ({x},{y})");
        }
    }
}

#[test]
fn draw_rectangle_clips_at_edges() {
    let mut s = gray_screen(3, 3, 3);
    s.set_bg_intensity(0);
    s.draw_rectangle(2, 2, 5, 5).unwrap();
    for y in 0..3usize {
        for x in 0..3usize {
            let expected = if x == 2 && y == 2 { 255 } else { 0 };
            assert_eq!(s.byte_at(y * 3 + x), expected);
        }
    }
}
