use fbrender::color::{Color, PixelFormat};
use fbrender::screen::{FbInfo, Screen};
use std::collections::HashSet;

const W: usize = 12;
const H: usize = 12;

fn screen() -> Screen {
    let i = FbInfo {
        width: W,
        height: H,
        stride: W,
        bytes_per_pixel: 1,
        pixel_format: PixelFormat::U8,
    };
    let mut s = Screen::new(vec![0u8; W * H], i).unwrap();
    s.set_bg_intensity(0);
    s
}

const INK: Color = Color { r: 9, g: 9, b: 9 };

/// All pixels whose byte was set to the ink value.
fn touched(s: &Screen) -> HashSet<(usize, usize)> {
    let mut t = HashSet::new();
    for y in 0..H {
        for x in 0..W {
            if s.byte_at(y * W + x) == 9 {
                t.insert((x, y));
            }
        }
    }
    t
}

fn line_pixels(x1: i32, y1: i32, x2: i32, y2: i32) -> HashSet<(usize, usize)> {
    let mut s = screen();
    s.draw_line(x1, y1, x2, y2, INK).unwrap();
    touched(&s)
}

fn set(pts: &[(usize, usize)]) -> HashSet<(usize, usize)> {
    pts.iter().copied().collect()
}

#[test]
fn single_point_line() {
    assert_eq!(line_pixels(0, 0, 0, 0), set(&[(0, 0)]));
    assert_eq!(line_pixels(5, 7, 5, 7), set(&[(5, 7)]));
}

#[test]
fn diagonal_touches_max_plus_one_pixels() {
    assert_eq!(line_pixels(0, 0, 3, 3), set(&[(0, 0), (1, 1), (2, 2), (3, 3)]));
    assert_eq!(line_pixels(3, 3, 0, 0), set(&[(0, 0), (1, 1), (2, 2), (3, 3)]));
    assert_eq!(line_pixels(1, 4, 4, 1), set(&[(1, 4), (2, 3), (3, 2), (4, 1)]));
    assert_eq!(line_pixels(4, 1, 1, 4), set(&[(1, 4), (2, 3), (3, 2), (4, 1)]));
}

#[test]
fn horizontal_and_vertical_lines() {
    assert_eq!(line_pixels(1, 2, 4, 2), set(&[(1, 2), (2, 2), (3, 2), (4, 2)]));
    assert_eq!(line_pixels(4, 2, 1, 2), set(&[(1, 2), (2, 2), (3, 2), (4, 2)]));
    assert_eq!(line_pixels(3, 1, 3, 4), set(&[(3, 1), (3, 2), (3, 3), (3, 4)]));
    assert_eq!(line_pixels(3, 4, 3, 1), set(&[(3, 1), (3, 2), (3, 3), (3, 4)]));
}

#[test]
fn shallow_line_all_octants() {
    // One pixel per x step, y rounding as the error term dictates.
    let expected = set(&[(0, 0), (1, 0), (2, 1), (3, 1), (4, 2)]);
    assert_eq!(line_pixels(0, 0, 4, 2), expected);
    assert_eq!(line_pixels(4, 2, 0, 0), expected);
    let expected_down = set(&[(0, 2), (1, 2), (2, 1), (3, 1), (4, 0)]);
    assert_eq!(line_pixels(0, 2, 4, 0), expected_down);
    assert_eq!(line_pixels(4, 0, 0, 2), expected_down);
}

#[test]
fn steep_line_all_octants() {
    // One pixel per y step.
    let expected = set(&[(0, 0), (0, 1), (1, 2), (1, 3), (2, 4)]);
    assert_eq!(line_pixels(0, 0, 2, 4), expected);
    assert_eq!(line_pixels(2, 4, 0, 0), expected);
    let expected_left = set(&[(2, 0), (2, 1), (1, 2), (1, 3), (0, 4)]);
    assert_eq!(line_pixels(2, 0, 0, 4), expected_left);
    assert_eq!(line_pixels(0, 4, 2, 0), expected_left);
}

#[test]
fn line_count_matches_dominant_span() {
    let pixels = line_pixels(1, 1, 9, 4);
    assert_eq!(pixels.len(), 9);
    let pixels = line_pixels(9, 4, 1, 1);
    assert_eq!(pixels.len(), 9);
    let pixels = line_pixels(2, 10, 5, 2);
    assert_eq!(pixels.len(), 9);
}

#[test]
fn line_clips_outside_buffer() {
    // The diagonal from (-2,-2) only shows where it crosses the buffer.
    assert_eq!(line_pixels(-2, -2, 2, 2), set(&[(0, 0), (1, 1), (2, 2)]));
    // A line fully outside the buffer paints nothing and still succeeds.
    assert_eq!(line_pixels(-5, -1, -1, -5), set(&[]));
}
