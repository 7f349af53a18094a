use pongi::sprite_sheet::{
    collect_pivots_from_frames, frame_index_from_filename, get_frame_index_for_frame,
    get_pivot_for_frame, is_whitespace, parse_usize, AsepriteFrame, FrameRect, frame_region,
};
use pongi::atlas::AtlasRegion;
use pongi::image::IRect;

fn frame(filename: &str, x: u32, y: u32) -> AsepriteFrame {
    AsepriteFrame {
        filename: filename.to_string(),
        frame: FrameRect { x: 0, y: 0, w: 1, h: 1 },
        rotated: false,
        trimmed: true,
        sprite_source_size: FrameRect { x, y, w: 1, h: 1 },
        source_size: (16, 16),
        duration: 100,
    }
}

#[test]
fn frame_index_is_last_number_of_filename() {
    assert_eq!(frame_index_from_filename("player 3.aseprite"), Some(3));
    assert_eq!(frame_index_from_filename("walk cycle 12"), Some(12));
    assert_eq!(frame_index_from_filename("a 0.aseprite  "), Some(0));
    assert_eq!(frame_index_from_filename("a +7"), Some(7));
    assert_eq!(frame_index_from_filename("a\u{3000}5"), Some(5));
    assert_eq!(frame_index_from_filename("x 4.aseprite.aseprite"), Some(4));
}

#[test]
fn frame_index_missing_or_malformed() {
    assert_eq!(frame_index_from_filename(""), None);
    assert_eq!(frame_index_from_filename("   "), None);
    assert_eq!(frame_index_from_filename("player"), None);
    assert_eq!(frame_index_from_filename("player -1"), None);
    assert_eq!(frame_index_from_filename("player +"), None);
    assert_eq!(frame_index_from_filename("player 99999999999999999999999"), None);
}

#[test]
fn parse_usize_matches_std() {
    for text in ["0", "42", "+42", "-0", "", "+", "4a", "18446744073709551615", "18446744073709551616"] {
        let chars: Vec<char> = text.chars().collect();
        assert_eq!(parse_usize(&chars), text.parse::<usize>().ok(), "{}", text);
    }
}

#[test]
fn whitespace_matches_std() {
    for c in [' ', '\t', '\n', '\u{85}', '\u{a0}', '\u{2009}', '\u{3000}', 'a', '0', '\u{200b}'] {
        assert_eq!(is_whitespace(c), c.is_whitespace(), "{:?}", c);
    }
}

#[test]
fn pivot_of_a_frame() {
    let f = frame("pivot 2.aseprite", 5, 6);
    assert_eq!(get_frame_index_for_frame(&f), 2);
    assert_eq!(get_pivot_for_frame(&f), (5, 6));
}

#[test]
fn pivots_are_collected_by_frame_index() {
    let frames = vec![frame("p 2.aseprite", 1, 2), frame("p 0.aseprite", 3, 4), frame("p 2.aseprite", 7, 8)];
    let mut pivots = vec![(0, 0); 4];
    collect_pivots_from_frames(&frames, &mut pivots);
    assert_eq!(pivots, vec![(3, 4), (0, 0), (7, 8), (0, 0)]);
}

#[test]
fn frame_regions_within_a_packed_sheet() {
    let default_region = AtlasRegion { rect: IRect::new(0, 0, 1, 1), atlas_index: 0 };
    let sheet = AtlasRegion { rect: IRect::new(10, 20, 64, 32), atlas_index: 2 };
    let empty = frame_region(default_region, sheet, FrameRect { x: 5, y: 6, w: 0, h: 0 });
    assert_eq!(empty, default_region);
    let part = frame_region(default_region, sheet, FrameRect { x: 16, y: 8, w: 16, h: 12 });
    assert_eq!(part, AtlasRegion { rect: IRect::new(26, 28, 16, 12), atlas_index: 2 });
    // a frame with only one side zero is not empty
    let thin = frame_region(default_region, sheet, FrameRect { x: 1, y: 2, w: 0, h: 3 });
    assert_eq!(thin, AtlasRegion { rect: IRect::new(11, 22, 0, 3), atlas_index: 2 });
}
