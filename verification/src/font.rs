//! Bitmap font preparation: the code points a font covers, glyph images with
//! padding and an optional one pixel border, and font metrics.
use vstd::prelude::*;

use crate::atlas::{packer_accepts, rect_tuple, with_placed, AtlasPacker, AtlasRegion};
use crate::image::{
    border_neighbour_of_glyph, border_neighbour_of_glyph_before, glyph_pixels_padded,
    lemma_index_bounds, pixels_equal, transparent_spec, Image, ImageView, Pixel,
};

verus! {

/// Colour of glyph pixels in a glyph image.
pub fn color_glyph() -> (r: Pixel)
    ensures
        r == color_glyph_spec(),
{
    [0u8, 255u8, 255u8, 255u8]
}

pub open spec fn color_glyph_spec() -> Pixel {
    [0u8, 255u8, 255u8, 255u8]
}

/// Colour of the border drawn around glyphs.
pub fn color_border() -> (r: Pixel)
    ensures
        r == color_border_spec(),
{
    [255u8, 0u8, 0u8, 255u8]
}

pub open spec fn color_border_spec() -> Pixel {
    [255u8, 0u8, 0u8, 255u8]
}

/// Paints `(nx, ny)` with `color_border` unless it is a glyph pixel.
fn paint_unless_glyph(image: &mut Image, nx: u32, ny: u32, color_glyph: Pixel, color_border: Pixel)
    requires
        old(image).wf(),
        old(image)@.in_bounds(nx as int, ny as int),
    ensures
        final(image).wf(),
        final(image)@.width == old(image)@.width,
        final(image)@.height == old(image)@.height,
        forall|i: int, j: int|
            #![trigger final(image)@.pixel(i, j)]
            final(image)@.in_bounds(i, j) ==> final(image)@.pixel(i, j) == if i == nx && j == ny
                && old(image)@.pixel(i, j) != color_glyph {
                color_border
            } else {
                old(image)@.pixel(i, j)
            },
{
    let neighbour_pixel_val = image.get_pixel(nx, ny);
    if !pixels_equal(neighbour_pixel_val, color_glyph) {
        image.put_pixel(nx, ny, color_border);
    }
}

/// Surrounds every glyph pixel with a border: each pixel left of, right of,
/// above, below or diagonally below-right of a glyph pixel that is not itself a
/// glyph pixel is painted with `color_border`.
pub fn draw_glyph_border(image: &mut Image, color_glyph: Pixel, color_border: Pixel)
    requires
        old(image).wf(),
        color_glyph != color_border,
        glyph_pixels_padded(old(image)@, color_glyph),
    ensures
        final(image).wf(),
        final(image)@.width == old(image)@.width,
        final(image)@.height == old(image)@.height,
        forall|i: int, j: int|
            #![trigger final(image)@.pixel(i, j)]
            final(image)@.in_bounds(i, j) ==> final(image)@.pixel(i, j) == if old(image)@.pixel(
                i,
                j,
            ) != color_glyph && border_neighbour_of_glyph(old(image)@, color_glyph, i, j) {
                color_border
            } else {
                old(image)@.pixel(i, j)
            },
{
    let ghost old_img = image@;
    let width = image.width();
    let height = image.height();
    let mut y: u32 = 0;
    while y < height
        invariant
            image.wf(),
            image@.width == old_img.width,
            image@.height == old_img.height,
            width == old_img.width,
            height == old_img.height,
            color_glyph != color_border,
            glyph_pixels_padded(old_img, color_glyph),
            y <= height,
            forall|i: int, j: int|
                #![trigger image@.pixel(i, j)]
                image@.in_bounds(i, j) ==> image@.pixel(i, j) == if old_img.pixel(i, j)
                    != color_glyph && border_neighbour_of_glyph_before(
                    old_img,
                    color_glyph,
                    i,
                    j,
                    0,
                    y as int,
                ) {
                    color_border
                } else {
                    old_img.pixel(i, j)
                },
        decreases height - y,
    {
        let mut x: u32 = 0;
        while x < width
            invariant
                image.wf(),
                image@.width == old_img.width,
                image@.height == old_img.height,
                width == old_img.width,
                height == old_img.height,
                color_glyph != color_border,
                glyph_pixels_padded(old_img, color_glyph),
                y < height,
                x <= width,
                forall|i: int, j: int|
                    #![trigger image@.pixel(i, j)]
                    image@.in_bounds(i, j) ==> image@.pixel(i, j) == if old_img.pixel(i, j)
                        != color_glyph && border_neighbour_of_glyph_before(
                        old_img,
                        color_glyph,
                        i,
                        j,
                        x as int,
                        y as int,
                    ) {
                        color_border
                    } else {
                        old_img.pixel(i, j)
                    },
            decreases width - x,
        {
            let ghost before = image@;
            let pixel_val = image.get_pixel(x, y);
            if pixels_equal(pixel_val, color_glyph) {
                proof {
                    assert(old_img.pixel(x as int, y as int) == color_glyph);
                    assert(1 <= x && x + 1 < width && 1 <= y && y + 1 < height);
                }
                // left, right, above, below and diagonally below-right
                paint_unless_glyph(image, x - 1, y, color_glyph, color_border);
                paint_unless_glyph(image, x + 1, y, color_glyph, color_border);
                paint_unless_glyph(image, x, y - 1, color_glyph, color_border);
                paint_unless_glyph(image, x, y + 1, color_glyph, color_border);
                paint_unless_glyph(image, x + 1, y + 1, color_glyph, color_border);
                proof {
                    assert forall|i: int, j: int|
                        #![trigger image@.pixel(i, j)]
                        image@.in_bounds(i, j) implies image@.pixel(i, j) == if old_img.pixel(i, j)
                            != color_glyph && border_neighbour_of_glyph_before(
                            old_img,
                            color_glyph,
                            i,
                            j,
                            x + 1,
                            y as int,
                        ) {
                            color_border
                        } else {
                            old_img.pixel(i, j)
                        } by {
                        assert(before.pixel(i, j) == image@.pixel(i, j) || (i, j) == (x - 1, y as int)
                            || (i, j) == (x + 1, y as int) || (i, j) == (x as int, y - 1) || (i, j)
                            == (x as int, y + 1) || (i, j) == (x + 1, y + 1));
                    }
                }
            }
            x = x + 1;
        }
        y = y + 1;
    }
}

// -------------------------------------------------------------------------------------------------
// Code points
//

/// The first ASCII code point with a visible glyph (the space).
pub open spec fn first_visible_ascii_code_point() -> u8 {
    32
}

/// The last ASCII code point a font covers.
pub open spec fn last_ascii_code_point() -> u8 {
    126
}

/// The code points a font gets glyphs for, indexed by ASCII code: the
/// control characters 0 to 31 are drawn as spaces, 32 to 126 as themselves.
pub open spec fn font_code_points_spec() -> Seq<char> {
    Seq::new(
        (last_ascii_code_point() + 1) as nat,
        |i: int| if i < first_visible_ascii_code_point() { ' ' } else { (i as u32) as char },
    )
}

/// The glyph of ASCII code `i` is the character with that code for the
/// visible characters 32 to 126, and a space for the control characters.
pub proof fn law_code_points_follow_ascii()
    ensures
        font_code_points_spec().len() == 127,
        forall|i: int| 32 <= i <= 126 ==> #[trigger] (font_code_points_spec()[i] as u32) == i,
        forall|i: int| 0 <= i < 32 ==> #[trigger] font_code_points_spec()[i] == ' ',
        forall|c: char|
            32 <= (c as u32) <= 126 ==> #[trigger] font_code_points_spec()[c as u32 as int] == c,
{
    assert forall|c: char| 32 <= (c as u32) <= 126 implies #[trigger] font_code_points_spec()[c
        as u32 as int] == c by {
        assert(((c as u32) as char) == c);
    }
}

pub fn font_code_points() -> (r: Vec<char>)
    ensures
        r@ == font_code_points_spec(),
        r@.len() == 127,
        forall|i: int| 32 <= i <= 126 ==> #[trigger] (r@[i] as u32) == i,
        forall|i: int| 0 <= i < 32 ==> #[trigger] r@[i] == ' ',
{
    let mut r: Vec<char> = Vec::new();
    let mut i: u8 = 0;
    while i < 32
        invariant
            i <= 32,
            r@.len() == i,
            forall|k: int| 0 <= k < i ==> r@[k] == ' ',
        decreases 32 - i,
    {
        r.push(' ');
        i = i + 1;
    }
    let mut code: u8 = 32;
    while code <= 126
        invariant
            32 <= code <= 127,
            r@.len() == code,
            forall|k: int| 0 <= k < 32 ==> r@[k] == ' ',
            forall|k: int| 32 <= k < code ==> r@[k] == (k as u32) as char,
        decreases 127 - code,
    {
        r.push(code as char);
        code = code + 1;
    }
    assert(r@ =~= font_code_points_spec());
    assert forall|i: int| 32 <= i <= 126 implies #[trigger] (r@[i] as u32) == i by {
        assert(r@[i] == (i as u32) as char);
    }
    r
}

// -------------------------------------------------------------------------------------------------
// Glyph images
//

/// Pixel `(x, y)` of the glyph's bounding box is covered.
pub open spec fn covered_at(covered: Seq<(u32, u32)>, x: int, y: int) -> bool {
    exists|k: int| 0 <= k < covered.len() && covered[k].0 == x && covered[k].1 == y
}

/// Pixel `(i, j)` of a glyph image whose bounding box starts at offset
/// `margin` is one of the covered pixels.
pub open spec fn glyph_pixel_at(covered: Seq<(u32, u32)>, margin: int, i: int, j: int) -> bool {
    covered_at(covered, i - margin, j - margin)
}

/// Pixel `(i, j)` lies left of, right of, above, below or diagonally
/// below-right of a covered pixel.
pub open spec fn next_to_glyph(covered: Seq<(u32, u32)>, margin: int, i: int, j: int) -> bool {
    ||| glyph_pixel_at(covered, margin, i + 1, j)
    ||| glyph_pixel_at(covered, margin, i - 1, j)
    ||| glyph_pixel_at(covered, margin, i, j + 1)
    ||| glyph_pixel_at(covered, margin, i, j - 1)
    ||| glyph_pixel_at(covered, margin, i - 1, j - 1)
}

/// Draws a glyph into a new image: `covered` lists the pixels of the glyph's
/// `bbox_width` x `bbox_height` bounding box that the glyph covers by more
/// than half. The image surrounds the box by `atlas_padding +
/// border_thickness` transparent pixels on every side; with a border
/// thickness of one, a border is drawn around the glyph.
pub fn create_glyph_image(
    bbox_width: u32,
    bbox_height: u32,
    covered: &Vec<(u32, u32)>,
    border_thickness: u8,
    atlas_padding: u8,
) -> (r: Image)
    requires
        border_thickness <= 1,
        atlas_padding + border_thickness <= u8::MAX,
        bbox_width + 2 * (atlas_padding + border_thickness) <= u32::MAX,
        bbox_height + 2 * (atlas_padding + border_thickness) <= u32::MAX,
        (bbox_width + 2 * (atlas_padding + border_thickness)) * (bbox_height + 2 * (atlas_padding
            + border_thickness)) <= usize::MAX,
        forall|k: int|
            #![trigger covered@[k]]
            0 <= k < covered@.len() ==> covered@[k].0 < bbox_width && covered@[k].1 < bbox_height,
    ensures
        r.wf(),
        r@.width == bbox_width + 2 * (atlas_padding + border_thickness),
        r@.height == bbox_height + 2 * (atlas_padding + border_thickness),
        forall|i: int, j: int|
            #![trigger r@.pixel(i, j)]
            r@.in_bounds(i, j) ==> r@.pixel(i, j) == if glyph_pixel_at(
                covered@,
                atlas_padding + border_thickness,
                i,
                j,
            ) {
                color_glyph_spec()
            } else if border_thickness == 1 && next_to_glyph(
                covered@,
                atlas_padding + border_thickness,
                i,
                j,
            ) {
                color_border_spec()
            } else {
                transparent_spec()
            },
{
    let margin: u8 = atlas_padding + border_thickness;
    let width: u32 = bbox_width + 2 * (margin as u32);
    let height: u32 = bbox_height + 2 * (margin as u32);
    let mut image = Image::new_rgba8(width, height);
    let glyph = color_glyph();
    let ghost m = margin as int;
    let mut k: usize = 0;
    while k < covered.len()
        invariant
            k <= covered@.len(),
            image.wf(),
            image@.width == width,
            image@.height == height,
            m == margin,
            width == bbox_width + 2 * m,
            height == bbox_height + 2 * m,
            glyph == color_glyph_spec(),
            forall|q: int|
                0 <= q < covered@.len() ==> #[trigger] covered@[q].0 < bbox_width && covered@[q].1
                    < bbox_height,
            forall|i: int, j: int|
                #![trigger image@.pixel(i, j)]
                image@.in_bounds(i, j) ==> image@.pixel(i, j) == if covered_at(
                    covered@.subrange(0, k as int),
                    i - m,
                    j - m,
                ) {
                    color_glyph_spec()
                } else {
                    transparent_spec()
                },
        decreases covered@.len() - k,
    {
        let (x, y) = covered[k];
        image.put_pixel(x + margin as u32, y + margin as u32, glyph);
        proof {
            let prefix = covered@.subrange(0, k as int);
            let next = covered@.subrange(0, k + 1);
            assert forall|i: int, j: int|
                #![trigger image@.pixel(i, j)]
                image@.in_bounds(i, j) implies image@.pixel(i, j) == if covered_at(
                    next,
                    i - m,
                    j - m,
                ) {
                    color_glyph_spec()
                } else {
                    transparent_spec()
                } by {
                if covered_at(prefix, i - m, j - m) {
                    let q = choose|q: int|
                        0 <= q < prefix.len() && prefix[q].0 == i - m && prefix[q].1 == j - m;
                    assert(next[q] == prefix[q]);
                }
                if covered_at(next, i - m, j - m) && !(i == x + m && j == y + m) {
                    let q = choose|q: int|
                        0 <= q < next.len() && next[q].0 == i - m && next[q].1 == j - m;
                    assert(q != k);
                    assert(prefix[q] == next[q]);
                }
                if i == x + m && j == y + m {
                    assert(next[k as int] == (x, y));
                }
            }
        }
        k = k + 1;
    }
    proof {
        assert(covered@.subrange(0, k as int) =~= covered@);
    }
    if border_thickness != 0 {
        let ghost before = image@;
        proof {
            assert(glyph_pixels_padded(before, color_glyph_spec())) by {
                assert forall|x: int, y: int|
                    #![trigger before.pixel(x, y)]
                    before.in_bounds(x, y) && before.pixel(x, y) == color_glyph_spec() implies 1
                    <= x && x + 1 < before.width && 1 <= y && y + 1 < before.height by {
                    assert(covered_at(covered@, x - m, y - m));
                    let q = choose|q: int|
                        0 <= q < covered@.len() && covered@[q].0 == x - m && covered@[q].1 == y - m;
                    assert(covered@[q].0 < bbox_width && covered@[q].1 < bbox_height);
                }
            }
        }
        draw_glyph_border(&mut image, color_glyph(), color_border());
        proof {
            assert forall|i: int, j: int|
                #![trigger image@.pixel(i, j)]
                image@.in_bounds(i, j) implies image@.pixel(i, j) == if glyph_pixel_at(
                    covered@,
                    m,
                    i,
                    j,
                ) {
                    color_glyph_spec()
                } else if border_thickness == 1 && next_to_glyph(covered@, m, i, j) {
                    color_border_spec()
                } else {
                    transparent_spec()
                } by {
                assert(before.pixel(i, j) == if glyph_pixel_at(covered@, m, i, j) {
                    color_glyph_spec()
                } else {
                    transparent_spec()
                });
                assert(transparent_spec() != color_glyph_spec());
                assert(border_neighbour_of_glyph(before, color_glyph_spec(), i, j) == next_to_glyph(
                    covered@,
                    m,
                    i,
                    j,
                )) by {
                    lemma_glyph_at_iff_covered(before, covered@, m, bbox_width as int, bbox_height as int, i + 1, j);
                    lemma_glyph_at_iff_covered(before, covered@, m, bbox_width as int, bbox_height as int, i - 1, j);
                    lemma_glyph_at_iff_covered(before, covered@, m, bbox_width as int, bbox_height as int, i, j + 1);
                    lemma_glyph_at_iff_covered(before, covered@, m, bbox_width as int, bbox_height as int, i, j - 1);
                    lemma_glyph_at_iff_covered(before, covered@, m, bbox_width as int, bbox_height as int, i - 1, j - 1);
                }
            }
        }
    }
    image
}

/// In the glyph image before the border is drawn, a glyph pixel is exactly a
/// covered pixel.
proof fn lemma_glyph_at_iff_covered(
    img: ImageView,
    covered: Seq<(u32, u32)>,
    m: int,
    bw: int,
    bh: int,
    x: int,
    y: int,
)
    requires
        0 <= m,
        img.width == bw + 2 * m,
        img.height == bh + 2 * m,
        forall|q: int| 0 <= q < covered.len() ==> #[trigger] covered[q].0 < bw && covered[q].1 < bh,
        forall|i: int, j: int|
            #![trigger img.pixel(i, j)]
            img.in_bounds(i, j) ==> img.pixel(i, j) == if covered_at(covered, i - m, j - m) {
                color_glyph_spec()
            } else {
                transparent_spec()
            },
    ensures
        crate::image::is_glyph_at(img, color_glyph_spec(), x, y) == glyph_pixel_at(covered, m, x, y),
{
    assert(transparent_spec() != color_glyph_spec());
    if glyph_pixel_at(covered, m, x, y) {
        let q = choose|q: int| 0 <= q < covered.len() && covered[q].0 == x - m && covered[q].1 == y - m;
        assert(covered[q].0 < bw && covered[q].1 < bh);
        assert(img.in_bounds(x, y));
        assert(img.pixel(x, y) == color_glyph_spec());
    }
}

// -------------------------------------------------------------------------------------------------
// Raw glyphs and fonts
//

/// The pixel bounding box of a rasterised glyph and the pixels it covers by
/// more than half, relative to the box.
#[derive(Debug)]
pub struct GlyphBox {
    pub min_x: i32,
    pub min_y: i32,
    pub width: u32,
    pub height: u32,
    pub covered: Vec<(u32, u32)>,
}

/// A glyph before packing: its image (none for glyphs without pixels, such
/// as the space) and its metrics in whole pixels.
#[derive(Debug)]
pub struct RawGlyph {
    pub code_point: char,
    pub horizontal_advance: i32,
    pub offset: (i32, i32),
    pub image: Option<Image>,
}

/// A font before packing.
#[derive(Debug)]
pub struct RawFont {
    pub font_height: i32,
    pub vertical_advance: i32,
    pub glyphs: Vec<RawGlyph>,
}

/// The image a glyph box is drawn into is valid to create.
pub open spec fn glyph_box_fits(b: &GlyphBox, border_thickness: u8, atlas_padding: u8) -> bool {
    &&& b.width + 2 * (atlas_padding + border_thickness) <= u32::MAX
    &&& b.height + 2 * (atlas_padding + border_thickness) <= u32::MAX
    &&& (b.width + 2 * (atlas_padding + border_thickness)) * (b.height + 2 * (atlas_padding
        + border_thickness)) <= usize::MAX
    &&& forall|k: int|
        0 <= k < b.covered@.len() ==> #[trigger] b.covered@[k].0 < b.width && b.covered@[k].1
            < b.height
}

/// Builds a raw glyph from its rounded metrics. The advance grows by the
/// border on both sides; the offset is where the glyph image's top-left corner
/// goes relative to the pen position: the left side bearing (or, with an
/// image, the bounding box corner plus the bearing) minus the padding.
pub fn create_glyph(
    code_point: char,
    advance_width_rounded: i32,
    left_side_bearing_rounded: i32,
    bounding_box: Option<GlyphBox>,
    border_thickness: u8,
    atlas_padding: u8,
) -> (r: RawGlyph)
    requires
        border_thickness <= 1,
        atlas_padding + border_thickness <= u8::MAX,
        i32::MIN <= advance_width_rounded + 2 * border_thickness <= i32::MAX,
        i32::MIN <= left_side_bearing_rounded - atlas_padding <= i32::MAX,
        bounding_box matches Some(b) ==> {
            &&& glyph_box_fits(&b, border_thickness, atlas_padding)
            &&& i32::MIN <= left_side_bearing_rounded - atlas_padding + b.min_x <= i32::MAX
            &&& i32::MIN <= b.min_y - atlas_padding <= i32::MAX
        },
    ensures
        r.code_point == code_point,
        r.horizontal_advance == advance_width_rounded + 2 * border_thickness,
        match bounding_box {
            None => {
                &&& r.offset == (
                    (left_side_bearing_rounded - atlas_padding) as i32,
                    (-atlas_padding) as i32,
                )
                &&& r.image is None
            },
            Some(b) => {
                &&& r.offset == (
                    (left_side_bearing_rounded - atlas_padding + b.min_x) as i32,
                    (b.min_y - atlas_padding) as i32,
                )
                &&& r.image matches Some(img) && img.wf() && img@.width == b.width + 2 * (
                atlas_padding + border_thickness) && img@.height == b.height + 2 * (atlas_padding
                    + border_thickness) && forall|i: int, j: int|
                    #![trigger img@.pixel(i, j)]
                    img@.in_bounds(i, j) ==> img@.pixel(i, j) == if glyph_pixel_at(
                        b.covered@,
                        atlas_padding + border_thickness,
                        i,
                        j,
                    ) {
                        color_glyph_spec()
                    } else if border_thickness == 1 && next_to_glyph(
                        b.covered@,
                        atlas_padding + border_thickness,
                        i,
                        j,
                    ) {
                        color_border_spec()
                    } else {
                        transparent_spec()
                    }
            },
        },
{
    let horizontal_advance = advance_width_rounded + 2 * (border_thickness as i32);
    let mut offset_x = left_side_bearing_rounded - (atlas_padding as i32);
    let mut offset_y = -(atlas_padding as i32);
    let image = match bounding_box {
        Some(GlyphBox { min_x, min_y, width, height, covered }) => {
            let cref = &covered;
            assert(forall|k: int|
                #![trigger cref@[k]]
                0 <= k < cref@.len() ==> cref@[k].0 < width && cref@[k].1 < height);
            let image = create_glyph_image(width, height, cref, border_thickness, atlas_padding);
            offset_x = offset_x + min_x;
            offset_y = offset_y + min_y;
            Some(image)
        },
        None => None,
    };
    RawGlyph { code_point, horizontal_advance, offset: (offset_x, offset_y), image }
}

/// A raw font whose line height and line advance grow by the border above
/// and below.
pub fn create_font(
    font_height: i32,
    vertical_advance_rounded: i32,
    border_thickness: u8,
    glyphs: Vec<RawGlyph>,
) -> (r: RawFont)
    requires
        font_height + 2 * border_thickness <= i32::MAX,
        vertical_advance_rounded + 2 * border_thickness <= i32::MAX,
    ensures
        r.font_height == font_height + 2 * border_thickness,
        r.vertical_advance == vertical_advance_rounded + 2 * border_thickness,
        r.glyphs@ == glyphs@,
{
    RawFont {
        font_height: font_height + 2 * (border_thickness as i32),
        vertical_advance: vertical_advance_rounded + 2 * (border_thickness as i32),
        glyphs,
    }
}

// -------------------------------------------------------------------------------------------------
// Packing fonts into the atlas
//

/// A glyph whose image has a place in the atlas.
#[derive(Debug, Clone, Copy)]
pub struct PackedGlyph {
    pub region: AtlasRegion,
    pub offset: (i32, i32),
    pub horizontal_advance: i32,
}

/// A font whose glyph images have places in the atlas.
#[derive(Debug)]
pub struct PackedFont {
    pub font_height: i32,
    pub vertical_advance: i32,
    pub glyphs: Vec<PackedGlyph>,
}

/// A glyph image can go into atlases of the given size.
pub open spec fn fits_atlas(image: Option<Image>, atlas_size: i32) -> bool {
    image matches Some(img) ==> img.wf() && 0 < img@.width <= atlas_size && 0 < img@.height
        <= atlas_size
}

/// Packs the glyph's image, or gives the shared empty region to a glyph
/// without one.
pub fn pack_glyph(packer: &mut AtlasPacker, raw_glyph: RawGlyph) -> (r: PackedGlyph)
    requires
        old(packer).wf(),
        old(packer).rect_packer.atlas_packers@.len() < u32::MAX,
        fits_atlas(raw_glyph.image, old(packer).atlas_size),
    ensures
        final(packer).wf(),
        final(packer).atlas_size == old(packer).atlas_size,
        final(packer).default_empty_region == old(packer).default_empty_region,
        final(packer).rect_packer.atlas_packers@.len() <= old(packer).rect_packer.atlas_packers@.len() + 1,
        r.offset == raw_glyph.offset,
        r.horizontal_advance == raw_glyph.horizontal_advance,
        forall|g: AtlasRegion| #[trigger] old(packer).records(g) ==> final(packer).records(g),
        forall|g: AtlasRegion, img: ImageView|
            old(packer).records(g) && #[trigger] old(packer).holds_image_at(g, img)
                ==> final(packer).holds_image_at(g, img),
        match raw_glyph.image {
            None => r.region == old(packer).default_empty_region && *final(packer) == *old(packer),
            Some(img) => {
                &&& r.region.rect.width == img@.width
                &&& r.region.rect.height == img@.height
                &&& r.region.rect.inside(old(packer).atlas_size as int, old(packer).atlas_size as int)
                &&& r.region.atlas_index <= old(packer).rect_packer.atlas_packers@.len()
                &&& forall|j: int|
                    0 <= j < r.region.atlas_index ==> !packer_accepts(
                        #[trigger] old(packer).rect_packer.atlas_packers@[j],
                        img@.width as i32,
                        img@.height as i32,
                    )
                &&& r.region.atlas_index < old(packer).rect_packer.atlas_packers@.len()
                    ==> packer_accepts(
                    old(packer).rect_packer.atlas_packers@[r.region.atlas_index as int],
                    img@.width as i32,
                    img@.height as i32,
                )
                &&& r.region.atlas_index == old(packer).rect_packer.atlas_packers@.len()
                    ==> r.region.rect.x == 0 && r.region.rect.y == 0
                &&& final(packer).rect_packer.placed() == with_placed(
                    old(packer).rect_packer.placed(),
                    r.region.atlas_index as int,
                    rect_tuple(r.region.rect),
                )
                &&& final(packer).records(r.region)
                &&& final(packer).holds_image_at(r.region, img@)
            },
        },
{
    let region = match raw_glyph.image {
        Some(image) => packer.pack_image(image),
        None => packer.default_empty_region(),
    };
    PackedGlyph { region, offset: raw_glyph.offset, horizontal_advance: raw_glyph.horizontal_advance }
}

/// Packs all glyph images of a font, in order.
pub fn pack_font(packer: &mut AtlasPacker, raw_font: RawFont) -> (r: PackedFont)
    requires
        old(packer).wf(),
        old(packer).rect_packer.atlas_packers@.len() + raw_font.glyphs@.len() < u32::MAX,
        forall|k: int|
            0 <= k < raw_font.glyphs@.len() ==> fits_atlas(
                #[trigger] raw_font.glyphs@[k].image,
                old(packer).atlas_size,
            ),
    ensures
        final(packer).wf(),
        final(packer).atlas_size == old(packer).atlas_size,
        final(packer).default_empty_region == old(packer).default_empty_region,
        forall|g: AtlasRegion| #[trigger] old(packer).records(g) ==> final(packer).records(g),
        forall|g: AtlasRegion, img: ImageView|
            old(packer).records(g) && #[trigger] old(packer).holds_image_at(g, img)
                ==> final(packer).holds_image_at(g, img),
        r.font_height == raw_font.font_height,
        r.vertical_advance == raw_font.vertical_advance,
        r.glyphs@.len() == raw_font.glyphs@.len(),
        forall|k: int|
            0 <= k < r.glyphs@.len() ==> {
                &&& (#[trigger] r.glyphs@[k]).offset == raw_font.glyphs@[k].offset
                &&& r.glyphs@[k].horizontal_advance == raw_font.glyphs@[k].horizontal_advance
                &&& match raw_font.glyphs@[k].image {
                    None => r.glyphs@[k].region == old(packer).default_empty_region,
                    Some(img) => {
                        &&& r.glyphs@[k].region.rect.width == img@.width
                        &&& r.glyphs@[k].region.rect.height == img@.height
                        &&& r.glyphs@[k].region.rect.inside(
                            old(packer).atlas_size as int,
                            old(packer).atlas_size as int,
                        )
                        &&& final(packer).records(r.glyphs@[k].region)
                        &&& final(packer).holds_image_at(r.glyphs@[k].region, img@)
                    },
                }
            },
{
    let RawFont { font_height, vertical_advance, glyphs } = raw_font;
    let ghost raw = glyphs@;
    let mut glyphs = glyphs;
    let mut packed: Vec<PackedGlyph> = Vec::new();
    while glyphs.len() > 0
        invariant
            packer.wf(),
            packer.atlas_size == old(packer).atlas_size,
            packer.default_empty_region == old(packer).default_empty_region,
            glyphs@ == raw.subrange(packed@.len() as int, raw.len() as int),
            packed@.len() + glyphs@.len() == raw.len(),
            packer.rect_packer.atlas_packers@.len() <= old(packer).rect_packer.atlas_packers@.len()
                + packed@.len(),
            old(packer).rect_packer.atlas_packers@.len() + raw.len() < u32::MAX,
            forall|k: int|
                0 <= k < raw.len() ==> fits_atlas(#[trigger] raw[k].image, old(packer).atlas_size),
            forall|g: AtlasRegion| #[trigger] old(packer).records(g) ==> packer.records(g),
            forall|g: AtlasRegion, img: ImageView|
                old(packer).records(g) && #[trigger] old(packer).holds_image_at(g, img)
                    ==> packer.holds_image_at(g, img),
            forall|k: int|
                0 <= k < packed@.len() ==> {
                    &&& (#[trigger] packed@[k]).offset == raw[k].offset
                    &&& packed@[k].horizontal_advance == raw[k].horizontal_advance
                    &&& match raw[k].image {
                        None => packed@[k].region == old(packer).default_empty_region,
                        Some(img) => {
                            &&& packed@[k].region.rect.width == img@.width
                            &&& packed@[k].region.rect.height == img@.height
                            &&& packed@[k].region.rect.inside(
                                old(packer).atlas_size as int,
                                old(packer).atlas_size as int,
                            )
                            &&& packer.records(packed@[k].region)
                            &&& packer.holds_image_at(packed@[k].region, img@)
                        },
                    }
                },
        decreases glyphs@.len(),
    {
        let ghost k = packed@.len() as int;
        let ghost before = *packer;
        let raw_glyph = glyphs.remove(0);
        proof {
            assert(raw_glyph == raw[k]);
        }
        let glyph = pack_glyph(packer, raw_glyph);
        let ghost old_packed = packed@;
        packed.push(glyph);
        proof {
            assert(glyphs@ =~= raw.subrange(packed@.len() as int, raw.len() as int));
            assert forall|g: AtlasRegion| #[trigger] old(packer).records(g) implies packer.records(g) by {
                assert(before.records(g));
            }
            assert forall|g: AtlasRegion, img: ImageView|
                old(packer).records(g) && #[trigger] old(packer).holds_image_at(g, img)
                    implies packer.holds_image_at(g, img) by {
                assert(before.records(g));
                assert(before.holds_image_at(g, img));
            }
            assert forall|j: int| 0 <= j < packed@.len() implies {
                &&& (#[trigger] packed@[j]).offset == raw[j].offset
                &&& packed@[j].horizontal_advance == raw[j].horizontal_advance
                &&& match raw[j].image {
                    None => packed@[j].region == old(packer).default_empty_region,
                    Some(img) => {
                        &&& packed@[j].region.rect.width == img@.width
                        &&& packed@[j].region.rect.height == img@.height
                        &&& packed@[j].region.rect.inside(
                            old(packer).atlas_size as int,
                            old(packer).atlas_size as int,
                        )
                        &&& packer.records(packed@[j].region)
                        &&& packer.holds_image_at(packed@[j].region, img@)
                    },
                }
            } by {
                if j < k {
                    assert(packed@[j] == old_packed[j]);
                    if let Some(img) = raw[j].image {
                        assert(before.records(old_packed[j].region));
                        assert(before.holds_image_at(old_packed[j].region, img@));
                    }
                } else {
                    assert(packed@[j] == glyph);
                }
            }
        }
    }
    PackedFont { font_height, vertical_advance, glyphs: packed }
}

} // verus!
