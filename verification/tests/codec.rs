use fbrender::codec::{encode, luminance};
use fbrender::color::{Color, PixelFormat};

fn c(r: u8, g: u8, b: u8) -> Color {
    Color { r, g, b }
}

#[test]
fn encode_rgb_order_and_padding() {
    assert_eq!(encode(c(10, 20, 30), PixelFormat::Rgb, 4), vec![10, 20, 30, 0]);
    assert_eq!(encode(c(1, 2, 3), PixelFormat::Rgb, 3), vec![1, 2, 3]);
    assert_eq!(encode(c(1, 2, 3), PixelFormat::Rgb, 6), vec![1, 2, 3, 0, 0, 0]);
}

#[test]
fn encode_bgr_order() {
    assert_eq!(encode(c(10, 20, 30), PixelFormat::Bgr, 4), vec![30, 20, 10, 0]);
    assert_eq!(encode(c(1, 2, 3), PixelFormat::Bgr, 3), vec![3, 2, 1]);
}

#[test]
fn encode_truncates_to_bpp() {
    assert_eq!(encode(c(10, 20, 30), PixelFormat::Rgb, 2), vec![10, 20]);
    assert_eq!(encode(c(10, 20, 30), PixelFormat::Bgr, 1), vec![30]);
    assert_eq!(encode(c(10, 20, 30), PixelFormat::Rgb, 0), Vec::<u8>::new());
}

#[test]
fn encode_u8_is_luminance_then_zeros() {
    // 0.2989*255 = 76.2195, rounds to 76.
    assert_eq!(encode(c(255, 0, 0), PixelFormat::U8, 4), vec![76, 0, 0, 0]);
    assert_eq!(encode(c(255, 0, 0), PixelFormat::U8, 1), vec![76]);
}

#[test]
fn luminance_formula_exact() {
    assert_eq!(luminance(c(0, 0, 0)), 0);
    assert_eq!(luminance(c(255, 255, 255)), 255);
    // 0.2989*255 = 76.2195 -> 76
    assert_eq!(luminance(c(255, 0, 0)), 76);
    // 0.5870*255 = 149.685 -> 150 (rounds up)
    assert_eq!(luminance(c(0, 255, 0)), 150);
    // 0.1140*255 = 29.07 -> 29
    assert_eq!(luminance(c(0, 0, 255)), 29);
    // A gray tone keeps its value.
    assert_eq!(luminance(c(100, 100, 100)), 100);
    assert_eq!(luminance(c(1, 1, 1)), 1);
    // 0.2989*12 + 0.5870*34 + 0.1140*56 = 3.5868 + 19.958 + 6.384 = 29.9288 -> 30
    assert_eq!(luminance(c(12, 34, 56)), 30);
}
