use pongi::font::{color_border, color_glyph, draw_glyph_border};
use pongi::image::{pixels_equal, IRect, Image};

const RED: [u8; 4] = [255, 0, 0, 255];
const BLUE: [u8; 4] = [0, 0, 255, 255];
const CLEAR: [u8; 4] = [0, 0, 0, 0];

#[test]
fn new_image_is_transparent() {
    let img = Image::new_rgba8(3, 2);
    assert_eq!(img.width(), 3);
    assert_eq!(img.height(), 2);
    for y in 0..2 {
        for x in 0..3 {
            assert_eq!(img.get_pixel(x, y), CLEAR);
        }
    }
}

#[test]
fn put_pixel_changes_only_that_pixel() {
    let mut img = Image::new_rgba8(4, 4);
    img.put_pixel(2, 1, RED);
    assert_eq!(img.get_pixel(2, 1), RED);
    assert_eq!(img.get_pixel(1, 2), CLEAR);
    assert_eq!(img.into_pixels()[1 * 4 + 2], RED);
}

#[test]
fn from_pixels_checks_length() {
    assert!(Image::from_pixels(2, 2, vec![RED; 3]).is_none());
    let img = Image::from_pixels(2, 2, vec![RED, BLUE, RED, BLUE]).unwrap();
    assert_eq!(img.get_pixel(1, 0), BLUE);
    assert_eq!(img.get_pixel(0, 1), RED);
}

#[test]
fn fill_rect_fills_exactly_the_rect() {
    let mut img = Image::new_rgba8(5, 5);
    img.fill_rect(IRect::new(1, 2, 3, 2), RED);
    for y in 0..5u32 {
        for x in 0..5u32 {
            let inside = (1..4).contains(&x) && (2..4).contains(&y);
            assert_eq!(img.get_pixel(x, y), if inside { RED } else { CLEAR }, "{} {}", x, y);
        }
    }
}

#[test]
fn fill_rect_with_empty_rect_changes_nothing() {
    let mut img = Image::new_rgba8(2, 2);
    img.fill_rect(IRect::new(1, 1, 0, 0), RED);
    assert_eq!(img.get_pixel(1, 1), CLEAR);
}

#[test]
fn clear_sets_every_pixel() {
    let mut img = Image::new_rgba8(3, 3);
    img.clear(BLUE);
    for y in 0..3 {
        for x in 0..3 {
            assert_eq!(img.get_pixel(x, y), BLUE);
        }
    }
}

#[test]
fn draw_rect_draws_outline_only() {
    let mut img = Image::new_rgba8(5, 5);
    img.draw_rect(IRect::new(0, 0, 4, 3), RED);
    assert_eq!(img.get_pixel(0, 0), RED);
    assert_eq!(img.get_pixel(3, 0), RED);
    assert_eq!(img.get_pixel(0, 2), RED);
    assert_eq!(img.get_pixel(3, 2), RED);
    assert_eq!(img.get_pixel(1, 1), CLEAR);
    assert_eq!(img.get_pixel(2, 1), CLEAR);
    assert_eq!(img.get_pixel(4, 4), CLEAR);
}

#[test]
fn copy_region_copies_source_pixels() {
    let mut source = Image::new_rgba8(2, 2);
    source.put_pixel(0, 0, RED);
    source.put_pixel(1, 1, BLUE);
    let mut dest = Image::new_rgba8(4, 4);
    Image::copy_region(&source, IRect::new(0, 0, 2, 2), &mut dest, IRect::new(2, 1, 2, 2));
    assert_eq!(dest.get_pixel(2, 1), RED);
    assert_eq!(dest.get_pixel(3, 2), BLUE);
    assert_eq!(dest.get_pixel(3, 1), CLEAR);
    assert_eq!(dest.get_pixel(0, 0), CLEAR);
}

#[test]
fn pixels_equal_compares_all_channels() {
    assert!(pixels_equal(RED, RED));
    assert!(!pixels_equal(RED, [255, 0, 0, 254]));
}

#[test]
fn glyph_border_surrounds_glyph_pixels() {
    let glyph = color_glyph();
    let border = color_border();
    let mut img = Image::new_rgba8(5, 5);
    img.put_pixel(2, 2, glyph);
    img.put_pixel(3, 2, glyph);
    draw_glyph_border(&mut img, glyph, border);
    // glyph pixels stay
    assert_eq!(img.get_pixel(2, 2), glyph);
    assert_eq!(img.get_pixel(3, 2), glyph);
    // left, right, above, below, below-right
    assert_eq!(img.get_pixel(1, 2), border);
    assert_eq!(img.get_pixel(4, 2), border);
    assert_eq!(img.get_pixel(2, 1), border);
    assert_eq!(img.get_pixel(3, 1), border);
    assert_eq!(img.get_pixel(2, 3), border);
    assert_eq!(img.get_pixel(3, 3), border);
    assert_eq!(img.get_pixel(4, 3), border);
    // above-left and above-right diagonals stay untouched
    assert_eq!(img.get_pixel(1, 1), CLEAR);
    assert_eq!(img.get_pixel(4, 1), CLEAR);
    assert_eq!(img.get_pixel(1, 3), CLEAR);
}
