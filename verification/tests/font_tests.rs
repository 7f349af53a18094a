use pongi::atlas::AtlasPacker;
use pongi::font::{
    color_border, color_glyph, create_font, create_glyph, create_glyph_image, font_code_points,
    pack_font, pack_glyph, GlyphBox,
};

#[test]
fn code_points_are_indexed_by_ascii() {
    let cps = font_code_points();
    assert_eq!(cps.len(), 127);
    assert_eq!(cps[0], ' ');
    assert_eq!(cps[31], ' ');
    assert_eq!(cps[32], ' ');
    assert_eq!(cps['A' as usize], 'A');
    assert_eq!(cps[126], '~');
}

#[test]
fn glyph_image_without_border() {
    let img = create_glyph_image(2, 1, &vec![(1, 0)], 0, 1);
    assert_eq!((img.width(), img.height()), (4, 3));
    assert_eq!(img.get_pixel(2, 1), color_glyph());
    assert_eq!(img.get_pixel(1, 1), [0, 0, 0, 0]);
    assert_eq!(img.get_pixel(3, 1), [0, 0, 0, 0]);
}

#[test]
fn glyph_image_with_border() {
    let img = create_glyph_image(1, 1, &vec![(0, 0)], 1, 0);
    assert_eq!((img.width(), img.height()), (3, 3));
    assert_eq!(img.get_pixel(1, 1), color_glyph());
    assert_eq!(img.get_pixel(0, 1), color_border());
    assert_eq!(img.get_pixel(2, 1), color_border());
    assert_eq!(img.get_pixel(1, 0), color_border());
    assert_eq!(img.get_pixel(1, 2), color_border());
    assert_eq!(img.get_pixel(2, 2), color_border());
    assert_eq!(img.get_pixel(0, 0), [0, 0, 0, 0]);
    assert_eq!(img.get_pixel(2, 0), [0, 0, 0, 0]);
    assert_eq!(img.get_pixel(0, 2), [0, 0, 0, 0]);
}

#[test]
fn glyph_metrics() {
    let space = create_glyph(' ', 4, 1, None, 1, 2);
    assert_eq!(space.horizontal_advance, 6);
    assert_eq!(space.offset, (-1, -2));
    assert!(space.image.is_none());
    let bbox = GlyphBox { min_x: 1, min_y: -7, width: 3, height: 7, covered: vec![(0, 0), (2, 6)] };
    let a = create_glyph('A', 5, 0, Some(bbox), 1, 1);
    assert_eq!(a.code_point, 'A');
    assert_eq!(a.horizontal_advance, 7);
    assert_eq!(a.offset, (0, -8));
    let img = a.image.unwrap();
    assert_eq!((img.width(), img.height()), (7, 11));
    assert_eq!(img.get_pixel(2, 2), color_glyph());
    assert_eq!(img.get_pixel(4, 8), color_glyph());
}

#[test]
fn font_heights_include_border() {
    let font = create_font(8, 10, 1, Vec::new());
    assert_eq!(font.font_height, 10);
    assert_eq!(font.vertical_advance, 12);
}

#[test]
fn glyphs_are_packed_in_order() {
    let mut packer = AtlasPacker::new(32);
    let empty_region = packer.default_empty_region();
    let space = create_glyph(' ', 4, 0, None, 0, 0);
    let bbox = GlyphBox { min_x: 0, min_y: 0, width: 2, height: 2, covered: vec![(0, 0)] };
    let dot = create_glyph('.', 3, 0, Some(bbox), 0, 0);
    let font = create_font(8, 9, 0, vec![space, dot]);
    let packed = pack_font(&mut packer, font);
    assert_eq!(packed.font_height, 8);
    assert_eq!(packed.glyphs.len(), 2);
    assert_eq!(packed.glyphs[0].region, empty_region);
    assert_eq!(packed.glyphs[0].horizontal_advance, 4);
    assert_eq!((packed.glyphs[1].region.rect.width, packed.glyphs[1].region.rect.height), (2, 2));
    let textures = packer.into_atlas_textures();
    let r = packed.glyphs[1].region;
    assert_eq!(textures[r.atlas_index as usize].get_pixel(r.rect.x as u32, r.rect.y as u32), color_glyph());
}

#[test]
fn glyph_without_image_gets_empty_region() {
    let mut packer = AtlasPacker::new(8);
    let glyph = pack_glyph(&mut packer, create_glyph(' ', 2, 0, None, 0, 0));
    assert_eq!(glyph.region, packer.default_empty_region());
}
