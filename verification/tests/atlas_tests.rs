use pongi::atlas::{AtlasPacker, AtlasRectPacker};
use pongi::image::{IRect, Image};

#[test]
fn new_packer_reserves_empty_region() {
    let packer = AtlasPacker::new(16);
    let region = packer.default_empty_region();
    assert_eq!(region.atlas_index, 0);
    assert_eq!(region.rect, IRect::new(0, 0, 1, 1));
}

#[test]
fn rect_packer_first_fit_and_new_atlas() {
    let mut packer = AtlasRectPacker::new(8);
    let a = packer.pack_image(8, 4);
    assert_eq!(a.atlas_index, 0);
    assert_eq!((a.rect.x, a.rect.y, a.rect.width, a.rect.height), (0, 0, 8, 4));
    let b = packer.pack_image(8, 4);
    assert_eq!(b.atlas_index, 0);
    assert_eq!((b.rect.width, b.rect.height), (8, 4));
    // the first atlas is full now
    let c = packer.pack_image(8, 8);
    assert_eq!(c.atlas_index, 1);
    assert_eq!((c.rect.x, c.rect.y), (0, 0));
    assert_eq!(packer.atlas_packers.len(), 2);
    // small images still go into the first atlas that has room
    let d = packer.pack_image(1, 1);
    assert_eq!(d.atlas_index, 2);
}

#[test]
fn packed_image_lands_in_atlas_texture() {
    let mut packer = AtlasPacker::new(8);
    let mut image = Image::new_rgba8(2, 3);
    image.put_pixel(1, 2, [9, 8, 7, 6]);
    let region = packer.pack_image(image);
    assert_eq!((region.rect.width, region.rect.height), (2, 3));
    let textures = packer.into_atlas_textures();
    assert_eq!(textures.len() as u32, region.atlas_index + 1);
    let atlas = &textures[region.atlas_index as usize];
    assert_eq!(atlas.width(), 8);
    assert_eq!(
        atlas.get_pixel(region.rect.x as u32 + 1, region.rect.y as u32 + 2),
        [9, 8, 7, 6]
    );
    assert_eq!(atlas.get_pixel(region.rect.x as u32, region.rect.y as u32), [0, 0, 0, 0]);
}

#[test]
fn full_size_image_opens_second_atlas() {
    let mut packer = AtlasPacker::new(4);
    let image = Image::new_rgba8(4, 4);
    let region = packer.pack_image(image);
    // the first atlas already holds the one pixel empty region
    assert_eq!(region.atlas_index, 1);
    assert_eq!(region.rect, IRect::new(0, 0, 4, 4));
}

#[test]
fn sub_region_is_relative_to_region() {
    let mut packer = AtlasPacker::new(16);
    let region = packer.pack_image(Image::new_rgba8(4, 4));
    let sub = region.sub_region_relative(IRect::new(1, 2, 2, 1));
    assert_eq!(sub.atlas_index, region.atlas_index);
    assert_eq!(sub.rect, IRect::new(region.rect.x + 1, region.rect.y + 2, 2, 1));
}

fn filled(width: u32, height: u32, color: [u8; 4]) -> Image {
    let mut image = Image::new_rgba8(width, height);
    for y in 0..height {
        for x in 0..width {
            image.put_pixel(x, y, color);
        }
    }
    image
}

fn disjoint(a: IRect, b: IRect) -> bool {
    a.x + a.width <= b.x || b.x + b.width <= a.x || a.y + a.height <= b.y || b.y + b.height <= a.y
}

#[test]
fn packed_images_never_overlap_and_all_survive() {
    let mut packer = AtlasPacker::new(8);
    let sizes = [(3, 2), (2, 5), (4, 4), (1, 1), (5, 3), (2, 2), (8, 8), (3, 3)];
    let mut regions = Vec::new();
    for (i, (w, h)) in sizes.iter().enumerate() {
        let color = [i as u8 + 1, 10, 20, 255];
        regions.push((packer.pack_image(filled(*w, *h, color)), color));
    }
    let default_region = packer.default_empty_region();
    for (i, (a, _)) in regions.iter().enumerate() {
        assert!(disjoint(a.rect, default_region.rect) || a.atlas_index != default_region.atlas_index);
        for (b, _) in regions.iter().skip(i + 1) {
            assert!(a.atlas_index != b.atlas_index || disjoint(a.rect, b.rect));
        }
    }
    let textures = packer.into_atlas_textures();
    for (region, color) in &regions {
        let atlas = &textures[region.atlas_index as usize];
        for y in 0..region.rect.height {
            for x in 0..region.rect.width {
                let px = atlas.get_pixel((region.rect.x + x) as u32, (region.rect.y + y) as u32);
                assert_eq!(px, *color);
            }
        }
    }
}
