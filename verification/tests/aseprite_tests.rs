use pongi::aseprite::{
    deserialize_string, read_aseprite_file, read_chunk_layer, read_chunk_palette, read_u16,
    read_u32, AsepriteError, ChunkHeaderC, FrameC, HeaderC, LayerChunkC,
};

fn header_bytes(magic: u16) -> Vec<u8> {
    let mut b = vec![0u8; 128];
    b[0..4].copy_from_slice(&1000u32.to_le_bytes());
    b[4..6].copy_from_slice(&magic.to_le_bytes());
    b[6..8].copy_from_slice(&3u16.to_le_bytes()); // frames
    b[8..10].copy_from_slice(&32u16.to_le_bytes()); // width
    b[10..12].copy_from_slice(&16u16.to_le_bytes()); // height
    b[12..14].copy_from_slice(&32u16.to_le_bytes()); // color depth
    b[14..18].copy_from_slice(&1u32.to_le_bytes()); // flags
    b[18..20].copy_from_slice(&100u16.to_le_bytes()); // duration
    b[28] = 7;
    b[32..34].copy_from_slice(&256u16.to_le_bytes());
    b[34] = 1;
    b[35] = 2;
    b[36] = 0xAB;
    b
}

fn frame_bytes(magic: u16) -> Vec<u8> {
    let mut b = vec![0u8; 16];
    b[0..4].copy_from_slice(&500u32.to_le_bytes());
    b[4..6].copy_from_slice(&magic.to_le_bytes());
    b[6..8].copy_from_slice(&3u16.to_le_bytes());
    b[8..10].copy_from_slice(&100u16.to_le_bytes());
    b
}

fn chunk_header(size: u32, kind: u16) -> Vec<u8> {
    let mut b = size.to_le_bytes().to_vec();
    b.extend_from_slice(&kind.to_le_bytes());
    b
}

fn string_bytes(s: &str) -> Vec<u8> {
    let mut b = (s.len() as u16).to_le_bytes().to_vec();
    b.extend_from_slice(s.as_bytes());
    b
}

fn palette_body(first: u32, entries: &[(u16, [u8; 4], Option<&str>)]) -> Vec<u8> {
    let mut b = (entries.len() as u32).to_le_bytes().to_vec();
    b.extend_from_slice(&first.to_le_bytes());
    b.extend_from_slice(&(first + entries.len() as u32).to_le_bytes());
    b.extend_from_slice(&[0u8; 8]);
    for (flags, color, name) in entries {
        b.extend_from_slice(&flags.to_le_bytes());
        b.extend_from_slice(color);
        if let Some(name) = name {
            b.extend_from_slice(&string_bytes(name));
        }
    }
    b
}

fn layer_body(name: &str) -> Vec<u8> {
    let mut b = Vec::new();
    for v in [1u16, 0, 0, 16, 16, 0] {
        b.extend_from_slice(&v.to_le_bytes());
    }
    b.push(255);
    b.extend_from_slice(&[0, 0, 0]);
    b.extend_from_slice(&string_bytes(name));
    b
}

fn full_file() -> Vec<u8> {
    let mut bytes = header_bytes(0xA5E0);
    bytes.extend(frame_bytes(0xF1FA));
    bytes.extend(chunk_header(0, 0x2019));
    bytes.extend(palette_body(
        10,
        &[(0, [1, 2, 3, 4], None), (1, [5, 6, 7, 8], Some("sky"))],
    ));
    bytes.extend(chunk_header(6 + 3, 0x0004));
    bytes.extend([9, 9, 9]);
    bytes.extend(chunk_header(0, 0x2004));
    bytes.extend(layer_body("Layer 1"));
    bytes
}

#[test]
fn little_endian_integers() {
    let bytes = [0x34, 0x12, 0x78, 0x56];
    assert_eq!(read_u16(&bytes, 0), Some(0x1234));
    assert_eq!(read_u32(&bytes, 0), Some(0x5678_1234));
    assert_eq!(read_u16(&bytes, 3), None);
    assert_eq!(read_u32(&bytes, 1), None);
}

#[test]
fn header_fields_are_read_in_order() {
    let bytes = header_bytes(0xA5E0);
    let h = HeaderC::read(&bytes, 0).unwrap();
    assert_eq!(h.file_size, 1000);
    assert_eq!(h.magic_number, 0xA5E0);
    assert_eq!(h.num_frames, 3);
    assert_eq!(h.image_width_in_pixels, 32);
    assert_eq!(h.image_height_in_pixels, 16);
    assert_eq!(h.color_depth, 32);
    assert_eq!(h.flags, 1);
    assert_eq!(h.frame_default_duration_in_ms, 100);
    assert_eq!(h.indexed_color_transparent, 7);
    assert_eq!(h.num_colors, 256);
    assert_eq!(h.pixel_width, 1);
    assert_eq!(h.pixel_height, 2);
    assert_eq!(h._reserved0[0], 0xAB);
    assert!(HeaderC::read(&bytes[..127], 0).is_none());
}

#[test]
fn frame_and_chunk_headers() {
    let f = FrameC::read(&frame_bytes(0xF1FA), 0).unwrap();
    assert_eq!((f.num_bytes, f.magic_number, f.num_chunks, f.frame_duration_in_ms), (500, 0xF1FA, 3, 100));
    let c = ChunkHeaderC::read(&chunk_header(42, 0x2004), 0).unwrap();
    assert_eq!((c.chunk_size, c.chunk_type), (42, 0x2004));
    assert!(ChunkHeaderC::read(&[1, 2, 3, 4, 5], 0).is_none());
}

#[test]
fn strings_are_length_prefixed_utf8() {
    let bytes = string_bytes("héllo");
    let (s, after) = deserialize_string(&bytes, 0).unwrap();
    assert_eq!(s, "héllo");
    assert_eq!(after, bytes.len());
    assert_eq!(deserialize_string(&bytes[..4], 0).unwrap_err(), AsepriteError::UnexpectedEnd);
    let bad = vec![2, 0, 0xff, 0xfe];
    assert_eq!(deserialize_string(&bad, 0).unwrap_err(), AsepriteError::InvalidUtf8);
}

#[test]
fn palette_entries_get_consecutive_indices() {
    let body = palette_body(10, &[(0, [1, 2, 3, 4], None), (1, [5, 6, 7, 8], Some("sky"))]);
    let (chunk, after) = read_chunk_palette(&body, 0).unwrap();
    assert_eq!(after, body.len());
    assert_eq!(chunk.first_color_index, 10);
    assert_eq!(chunk.last_color_index, 12);
    assert_eq!(chunk.color_entries.len(), 2);
    assert_eq!(chunk.color_entries[0].index, 10);
    assert_eq!(chunk.color_entries[0].color, [1, 2, 3, 4]);
    assert_eq!(chunk.color_entries[0].name, None);
    assert_eq!(chunk.color_entries[1].index, 11);
    assert_eq!(chunk.color_entries[1].name.as_deref(), Some("sky"));
}

#[test]
fn palette_index_overflow_is_an_error() {
    let mut body = palette_body(0, &[(0, [0; 4], None), (0, [0; 4], None)]);
    body[4..8].copy_from_slice(&u32::MAX.to_le_bytes());
    assert_eq!(read_chunk_palette(&body, 0).unwrap_err(), AsepriteError::PaletteIndexOverflow);
    // a truncated entry is reported before the overflow it would have caused
    let short = &body[..body.len() - 1];
    assert_eq!(read_chunk_palette(short, 0).unwrap_err(), AsepriteError::UnexpectedEnd);
}

#[test]
fn layer_chunk_with_name() {
    let body = layer_body("Background");
    let (chunk, name, after) = read_chunk_layer(&body, 0).unwrap();
    assert_eq!(chunk.flags, 1);
    assert_eq!(chunk.default_layer_width_in_pixels, 16);
    assert_eq!(chunk.opacity, 255);
    assert_eq!(name, "Background");
    assert_eq!(after, body.len());
    assert!(LayerChunkC::read(&body[..15], 0).is_none());
}

#[test]
fn whole_file_is_read() {
    let info = read_aseprite_file(&full_file()).unwrap();
    assert_eq!(info.header.magic_number, 0xA5E0);
    assert_eq!(info.frame.magic_number, 0xF1FA);
    let palette = info.palette.unwrap();
    assert_eq!(palette.color_entries.len(), 2);
    let (layer, name) = info.layer.unwrap();
    assert_eq!(layer.opacity, 255);
    assert_eq!(name, "Layer 1");
}

#[test]
fn wrong_magic_numbers_are_reported() {
    let mut bytes = full_file();
    bytes[4] = 0;
    assert_eq!(read_aseprite_file(&bytes).unwrap_err(), AsepriteError::BadHeaderMagic(0xA500));
    let mut bytes = full_file();
    bytes[132] = 0x11;
    assert_eq!(read_aseprite_file(&bytes).unwrap_err(), AsepriteError::BadFrameMagic(0xF111));
}

#[test]
fn other_chunks_are_passed_over() {
    let mut bytes = header_bytes(0xA5E0);
    bytes.extend(frame_bytes(0xF1FA));
    bytes.extend(chunk_header(0, 0x2020));
    bytes.extend(chunk_header(0, 0x2018));
    bytes.extend(chunk_header(0, 0x2005));
    let info = read_aseprite_file(&bytes).unwrap();
    assert!(info.palette.is_none());
    assert!(info.layer.is_none());
}

#[test]
fn undersized_old_palette_chunk_is_an_error() {
    let mut bytes = header_bytes(0xA5E0);
    bytes.extend(frame_bytes(0xF1FA));
    bytes.extend(chunk_header(0, 0x2020));
    bytes.extend(chunk_header(5, 0x0011));
    bytes.extend(chunk_header(0, 0x2004));
    assert_eq!(read_aseprite_file(&bytes).unwrap_err(), AsepriteError::ChunkTooSmall);
}

#[test]
fn truncated_file_is_an_error() {
    let bytes = full_file();
    assert_eq!(read_aseprite_file(&bytes[..100]).unwrap_err(), AsepriteError::UnexpectedEnd);
    assert_eq!(read_aseprite_file(&bytes[..140]).unwrap_err(), AsepriteError::UnexpectedEnd);
    assert_eq!(read_aseprite_file(&bytes[..bytes.len() - 2]).unwrap_err(), AsepriteError::UnexpectedEnd);
}
