//! Reading the binary Aseprite file format: the file header, the frame
//! header, chunk headers, palette chunks and layer chunks. All integers are
//! little endian and every structure is laid out field after field without
//! padding.
use vstd::prelude::*;
use vstd::slice::slice_subrange;
use vstd::string::StringSliceAdditionalSpecFns;
use vstd::utf8::{decode_utf8, valid_utf8};

verus! {

pub open spec fn magic_number_header() -> u16 {
    0xA5E0
}

pub open spec fn magic_number_frame() -> u16 {
    0xF1FA
}

pub open spec fn chunktype_old_palette0() -> u16 {
    0x0004
}

pub open spec fn chunktype_old_palette1() -> u16 {
    0x0011
}

pub open spec fn chunktype_layer() -> u16 {
    0x2004
}

pub open spec fn chunktype_palette() -> u16 {
    0x2019
}

/// Size of a chunk header in bytes.
pub open spec fn chunkheader_size() -> u32 {
    6
}

pub open spec fn header_size() -> int {
    128
}

pub open spec fn frame_size() -> int {
    16
}

pub open spec fn layer_chunk_size() -> int {
    16
}

/// Why a byte sequence is not a readable Aseprite file.
#[derive(Clone, Copy, Debug, PartialEq, Eq)]
pub enum AsepriteError {
    /// The data ends before the structure being read does.
    UnexpectedEnd,
    /// The file header's magic number is not `0xA5E0`; it holds the number found.
    BadHeaderMagic(u16),
    /// The frame header's magic number is not `0xF1FA`; it holds the number found.
    BadFrameMagic(u16),
    /// A palette entry name or layer name is not valid UTF-8.
    InvalidUtf8,
    /// An old palette chunk claims to be smaller than its own header.
    ChunkTooSmall,
    /// A palette entry's colour index does not fit in 32 bits.
    PaletteIndexOverflow,
}

// -------------------------------------------------------------------------------------------------
// Little endian integers
//

/// The little endian `u16` at byte offset `at` of `s`.
pub open spec fn le_u16(s: Seq<u8>, at: int) -> u16 {
    (s[at] as int + 256 * (s[at + 1] as int)) as u16
}

/// The little endian `u32` at byte offset `at` of `s`.
pub open spec fn le_u32(s: Seq<u8>, at: int) -> u32 {
    (s[at] as int + 256 * (s[at + 1] as int) + 65536 * (s[at + 2] as int) + 16777216 * (s[at
        + 3] as int)) as u32
}

/// Reads the little endian `u16` at `pos`; `None` when fewer than two bytes remain.
pub fn read_u16(bytes: &[u8], pos: usize) -> (r: Option<u16>)
    ensures
        r is Some <==> pos + 2 <= bytes@.len(),
        r matches Some(v) ==> v == le_u16(bytes@, pos as int),
{
    if pos > bytes.len() || bytes.len() - pos < 2 {
        return None;
    }
    let b0 = bytes[pos] as u16;
    let b1 = bytes[pos + 1] as u16;
    Some(b0 + 256 * b1)
}

/// Reads the little endian `u32` at `pos`; `None` when fewer than four bytes remain.
pub fn read_u32(bytes: &[u8], pos: usize) -> (r: Option<u32>)
    ensures
        r is Some <==> pos + 4 <= bytes@.len(),
        r matches Some(v) ==> v == le_u32(bytes@, pos as int),
{
    if pos > bytes.len() || bytes.len() - pos < 4 {
        return None;
    }
    let b0 = bytes[pos] as u32;
    let b1 = bytes[pos + 1] as u32;
    let b2 = bytes[pos + 2] as u32;
    let b3 = bytes[pos + 3] as u32;
    Some(b0 + 256 * b1 + 65536 * b2 + 16777216 * b3)
}

/// Copies the `N` bytes starting at `pos`, which must all be present.
fn read_array<const N: usize>(bytes: &[u8], pos: usize) -> (r: [u8; N])
    requires
        pos + N <= bytes@.len(),
    ensures
        r@ == bytes@.subrange(pos as int, pos + N),
{
    let mut r: [u8; N] = vstd::array::array_fill_for_copy_types(0u8);
    let mut i: usize = 0;
    while i < N
        invariant
            pos + N <= bytes.len(),
            i <= N,
            r@.len() == N,
            forall|k: int| 0 <= k < i ==> r@[k] == bytes@[pos + k],
        decreases N - i,
    {
        r[i] = bytes[pos + i];
        i = i + 1;
    }
    assert(r@ =~= bytes@.subrange(pos as int, pos + N));
    r
}

// -------------------------------------------------------------------------------------------------
// File header, frame header, chunk header
//

/// The 128 byte header at the start of every Aseprite file.
#[derive(Debug, Clone, Copy)]
pub struct HeaderC {
    pub file_size: u32,
    pub magic_number: u16,
    pub num_frames: u16,
    pub image_width_in_pixels: u16,
    pub image_height_in_pixels: u16,
    pub color_depth: u16,
    pub flags: u32,
    pub frame_default_duration_in_ms: u16,
    pub _set_to_be_zero0: u32,
    pub _set_to_be_zero1: u32,
    pub indexed_color_transparent: u8,
    pub _ignored: [u8; 3],
    pub num_colors: u16,
    pub pixel_width: u8,
    pub pixel_height: u8,
    pub _reserved0: [u8; 32],
    pub _reserved1: [u8; 32],
    pub _reserved2: [u8; 28],
}

impl HeaderC {
    /// `h` is the header encoded at byte offset `at` of `s`.
    pub open spec fn encoded_at(h: HeaderC, s: Seq<u8>, at: int) -> bool {
        &&& h.file_size == le_u32(s, at)
        &&& h.magic_number == le_u16(s, at + 4)
        &&& h.num_frames == le_u16(s, at + 6)
        &&& h.image_width_in_pixels == le_u16(s, at + 8)
        &&& h.image_height_in_pixels == le_u16(s, at + 10)
        &&& h.color_depth == le_u16(s, at + 12)
        &&& h.flags == le_u32(s, at + 14)
        &&& h.frame_default_duration_in_ms == le_u16(s, at + 18)
        &&& h._set_to_be_zero0 == le_u32(s, at + 20)
        &&& h._set_to_be_zero1 == le_u32(s, at + 24)
        &&& h.indexed_color_transparent == s[at + 28]
        &&& h._ignored@ == s.subrange(at + 29, at + 32)
        &&& h.num_colors == le_u16(s, at + 32)
        &&& h.pixel_width == s[at + 34]
        &&& h.pixel_height == s[at + 35]
        &&& h._reserved0@ == s.subrange(at + 36, at + 68)
        &&& h._reserved1@ == s.subrange(at + 68, at + 100)
        &&& h._reserved2@ == s.subrange(at + 100, at + 128)
    }

    /// Reads the header at `pos`.
    pub fn read(bytes: &[u8], pos: usize) -> (r: Option<HeaderC>)
        ensures
            r is Some <==> pos + header_size() <= bytes@.len(),
            r matches Some(h) ==> HeaderC::encoded_at(h, bytes@, pos as int),
    {
        if pos > bytes.len() || bytes.len() - pos < 128 {
            return None;
        }
        Some(
            HeaderC {
                file_size: read_u32(bytes, pos)?,
                magic_number: read_u16(bytes, pos + 4)?,
                num_frames: read_u16(bytes, pos + 6)?,
                image_width_in_pixels: read_u16(bytes, pos + 8)?,
                image_height_in_pixels: read_u16(bytes, pos + 10)?,
                color_depth: read_u16(bytes, pos + 12)?,
                flags: read_u32(bytes, pos + 14)?,
                frame_default_duration_in_ms: read_u16(bytes, pos + 18)?,
                _set_to_be_zero0: read_u32(bytes, pos + 20)?,
                _set_to_be_zero1: read_u32(bytes, pos + 24)?,
                indexed_color_transparent: bytes[pos + 28],
                _ignored: read_array(bytes, pos + 29),
                num_colors: read_u16(bytes, pos + 32)?,
                pixel_width: bytes[pos + 34],
                pixel_height: bytes[pos + 35],
                _reserved0: read_array(bytes, pos + 36),
                _reserved1: read_array(bytes, pos + 68),
                _reserved2: read_array(bytes, pos + 100),
            },
        )
    }
}

/// The 16 byte header in front of every frame.
#[derive(Debug, Clone, Copy)]
pub struct FrameC {
    pub num_bytes: u32,
    pub magic_number: u16,
    pub num_chunks: u16,
    pub frame_duration_in_ms: u16,
    pub _reserved: [u8; 2],
    pub num_chunks_additional: u32,
}

impl FrameC {
    pub open spec fn encoded_at(f: FrameC, s: Seq<u8>, at: int) -> bool {
        &&& f.num_bytes == le_u32(s, at)
        &&& f.magic_number == le_u16(s, at + 4)
        &&& f.num_chunks == le_u16(s, at + 6)
        &&& f.frame_duration_in_ms == le_u16(s, at + 8)
        &&& f._reserved@ == s.subrange(at + 10, at + 12)
        &&& f.num_chunks_additional == le_u32(s, at + 12)
    }

    /// Reads the frame header at `pos`.
    pub fn read(bytes: &[u8], pos: usize) -> (r: Option<FrameC>)
        ensures
            r is Some <==> pos + frame_size() <= bytes@.len(),
            r matches Some(f) ==> FrameC::encoded_at(f, bytes@, pos as int),
    {
        if pos > bytes.len() || bytes.len() - pos < 16 {
            return None;
        }
        Some(
            FrameC {
                num_bytes: read_u32(bytes, pos)?,
                magic_number: read_u16(bytes, pos + 4)?,
                num_chunks: read_u16(bytes, pos + 6)?,
                frame_duration_in_ms: read_u16(bytes, pos + 8)?,
                _reserved: read_array(bytes, pos + 10),
                num_chunks_additional: read_u32(bytes, pos + 12)?,
            },
        )
    }
}

/// The 6 byte header in front of every chunk.
#[derive(Debug, Clone, Copy)]
pub struct ChunkHeaderC {
    pub chunk_size: u32,
    pub chunk_type: u16,
}

impl ChunkHeaderC {
    pub open spec fn encoded_at(c: ChunkHeaderC, s: Seq<u8>, at: int) -> bool {
        &&& c.chunk_size == le_u32(s, at)
        &&& c.chunk_type == le_u16(s, at + 4)
    }

    /// Reads the chunk header at `pos`.
    pub fn read(bytes: &[u8], pos: usize) -> (r: Option<ChunkHeaderC>)
        ensures
            r is Some <==> pos + 6 <= bytes@.len(),
            r matches Some(c) ==> ChunkHeaderC::encoded_at(c, bytes@, pos as int),
    {
        if pos > bytes.len() || bytes.len() - pos < 6 {
            return None;
        }
        Some(ChunkHeaderC { chunk_size: read_u32(bytes, pos)?, chunk_type: read_u16(bytes, pos + 4)? })
    }
}

// -------------------------------------------------------------------------------------------------
// Strings
//

/// `std::str::from_utf8`: succeeds exactly on valid UTF-8, and the string it
/// returns has the given bytes as its UTF-8 encoding.
#[verifier::external_body]
fn str_from_utf8(bytes: &[u8]) -> (r: Option<&str>)
    ensures
        r is Some <==> valid_utf8(bytes@),
        r matches Some(s) ==> s.spec_bytes() == bytes@,
{
    std::str::from_utf8(bytes).ok()
}

/// The string stored at `at`: a little endian `u16` byte count followed by
/// that many bytes of UTF-8. `None` when it runs past the end; otherwise the
/// decoded characters, if the bytes are valid UTF-8, and the offset after it.
pub open spec fn string_at(s: Seq<u8>, at: int) -> Option<(Option<Seq<char>>, int)> {
    if at + 2 > s.len() {
        None
    } else {
        let len = le_u16(s, at) as int;
        if at + 2 + len > s.len() {
            None
        } else {
            let bytes = s.subrange(at + 2, at + 2 + len);
            Some(
                (
                    if valid_utf8(bytes) {
                        Some(decode_utf8(bytes))
                    } else {
                        None
                    },
                    at + 2 + len,
                ),
            )
        }
    }
}

/// Reads a length-prefixed UTF-8 string at `pos`; returns it with the
/// position after it.
pub fn deserialize_string(bytes: &[u8], pos: usize) -> (r: Result<(String, usize), AsepriteError>)
    ensures
        match string_at(bytes@, pos as int) {
            None => r == Err::<(String, usize), AsepriteError>(AsepriteError::UnexpectedEnd),
            Some((None, _)) => r == Err::<(String, usize), AsepriteError>(
                AsepriteError::InvalidUtf8,
            ),
            Some((Some(chars), next)) => r matches Ok((text, after)) && text@ == chars && after
                == next,
        },
{
    let blen = bytes.len();
    let string_len = match read_u16(bytes, pos) {
        Some(len) => len,
        None => return Err(AsepriteError::UnexpectedEnd),
    };
    let start = pos + 2;
    if (string_len as usize) > bytes.len() - start {
        return Err(AsepriteError::UnexpectedEnd);
    }
    let end = start + string_len as usize;
    let text_bytes = slice_subrange(bytes, start, end);
    match str_from_utf8(text_bytes) {
        Some(text) => {
            proof {
                vstd::utf8::encode_utf8_decode_utf8(text@);
            }
            Ok((text.to_owned(), end))
        },
        None => Err(AsepriteError::InvalidUtf8),
    }
}

// -------------------------------------------------------------------------------------------------
// Palette chunk
//

/// One colour of a palette chunk.
#[derive(Debug)]
pub struct PaletteColorEntry {
    pub index: u32,
    pub color: [u8; 4],
    pub name: Option<String>,
}

/// The body of a palette chunk.
#[derive(Debug)]
pub struct PaletteChunk {
    pub first_color_index: u32,
    pub last_color_index: u32,
    pub color_entries: Vec<PaletteColorEntry>,
}

/// What one stored palette entry says: its colour bytes and its name, if any.
pub struct PaletteEntryView {
    pub color: Seq<u8>,
    pub name: Option<Seq<char>>,
}

impl PaletteColorEntry {
    pub open spec fn matches(self, v: PaletteEntryView) -> bool {
        &&& self.color@ == v.color
        &&& match self.name {
            Some(text) => v.name == Some(text@),
            None => v.name is None,
        }
    }
}

/// The palette entry stored at `at`: flags (`u16`), RGBA colour (4 bytes)
/// and, when bit 0 of the flags is set, a name string. On success also the
/// offset after the entry.
pub open spec fn palette_entry_at(s: Seq<u8>, at: int) -> Result<(PaletteEntryView, int), AsepriteError> {
    if at + 6 > s.len() {
        Err(AsepriteError::UnexpectedEnd)
    } else {
        let color = s.subrange(at + 2, at + 6);
        if le_u16(s, at) % 2 == 1 {
            match string_at(s, at + 6) {
                None => Err(AsepriteError::UnexpectedEnd),
                Some((None, _)) => Err(AsepriteError::InvalidUtf8),
                Some((Some(name), next)) => Ok((PaletteEntryView { color, name: Some(name) }, next)),
            }
        } else {
            Ok((PaletteEntryView { color, name: None }, at + 6))
        }
    }
}

/// The first `n` palette entries stored one after another from `at`, with the
/// offset after them, or the first error met while reading them.
pub open spec fn palette_entries_at(s: Seq<u8>, at: int, n: nat) -> Result<
    (Seq<PaletteEntryView>, int),
    AsepriteError,
>
    decreases n,
{
    if n == 0 {
        Ok((Seq::empty(), at))
    } else {
        match palette_entries_at(s, at, (n - 1) as nat) {
            Err(e) => Err(e),
            Ok((entries, pos)) => match palette_entry_at(s, pos) {
                Err(e) => Err(e),
                Ok((entry, next)) => Ok((entries.push(entry), next)),
            },
        }
    }
}

/// Once reading the first `n` entries fails, reading more fails the same way.
pub proof fn lemma_palette_entries_error_persists(s: Seq<u8>, at: int, n: nat, m: nat)
    requires
        n <= m,
        palette_entries_at(s, at, n) is Err,
    ensures
        palette_entries_at(s, at, m) == palette_entries_at(s, at, n),
    decreases m - n,
{
    if n < m {
        lemma_palette_entries_error_persists(s, at, n, (m - 1) as nat);
    }
}

/// What a stored palette chunk says.
pub struct PaletteView {
    pub first_color_index: u32,
    pub last_color_index: u32,
    pub entries: Seq<PaletteEntryView>,
}

/// The palette chunk body stored at `at`: number of entries, first and last
/// colour index (`u32` each), 8 reserved bytes, then the entries. Entry `k`
/// gets colour index `first + k`; reading fails with `PaletteIndexOverflow`
/// at the first entry whose index exceeds `u32::MAX`.
pub open spec fn palette_chunk_at(s: Seq<u8>, at: int) -> Result<(PaletteView, int), AsepriteError> {
    if at + 20 > s.len() {
        Err(AsepriteError::UnexpectedEnd)
    } else {
        let num = le_u32(s, at);
        let first = le_u32(s, at + 4);
        let last = le_u32(s, at + 8);
        let fitting = u32::MAX - first + 1;
        if num <= fitting {
            match palette_entries_at(s, at + 20, num as nat) {
                Err(e) => Err(e),
                Ok((entries, next)) => Ok(
                    (PaletteView { first_color_index: first, last_color_index: last, entries }, next),
                ),
            }
        } else {
            match palette_entries_at(s, at + 20, (fitting + 1) as nat) {
                Err(e) => Err(e),
                Ok(_) => Err(AsepriteError::PaletteIndexOverflow),
            }
        }
    }
}

impl PaletteChunk {
    pub open spec fn matches(self, v: PaletteView) -> bool {
        &&& self.first_color_index == v.first_color_index
        &&& self.last_color_index == v.last_color_index
        &&& self.color_entries@.len() == v.entries.len()
        &&& forall|k: int|
            0 <= k < v.entries.len() ==> {
                &&& (#[trigger] self.color_entries@[k]).matches(v.entries[k])
                &&& self.color_entries@[k].index == self.first_color_index + k
            }
    }
}

/// Reads one palette entry at `pos`.
fn read_palette_entry(bytes: &[u8], pos: usize) -> (r: Result<([u8; 4], Option<String>, usize), AsepriteError>)
    ensures
        match palette_entry_at(bytes@, pos as int) {
            Err(e) => r == Err::<([u8; 4], Option<String>, usize), AsepriteError>(e),
            Ok((v, next)) => r matches Ok((color, name, after)) && after == next && (
            PaletteColorEntry { index: 0, color, name }).matches(v),
        },
{
    let blen = bytes.len();
    let entry_flags = match read_u16(bytes, pos) {
        Some(flags) => flags,
        None => return Err(AsepriteError::UnexpectedEnd),
    };
    if blen - pos < 6 {
        return Err(AsepriteError::UnexpectedEnd);
    }
    let color: [u8; 4] = read_array(bytes, pos + 2);
    let has_name = entry_flags & 1 == 1;
    assert(has_name == (entry_flags % 2 == 1)) by (bit_vector)
        requires
            has_name == (entry_flags & 1 == 1),
    ;
    if has_name {
        let (name, after) = deserialize_string(bytes, pos + 6)?;
        Ok((color, Some(name), after))
    } else {
        Ok((color, None, pos + 6))
    }
}

/// Reads the body of a palette chunk starting at `pos`; returns it with the
/// position after it.
pub fn read_chunk_palette(bytes: &[u8], pos: usize) -> (r: Result<(PaletteChunk, usize), AsepriteError>)
    ensures
        match palette_chunk_at(bytes@, pos as int) {
            Err(e) => r == Err::<(PaletteChunk, usize), AsepriteError>(e),
            Ok((v, next)) => r matches Ok((chunk, after)) && after == next && chunk.matches(v),
        },
{
    let blen = bytes.len();
    if pos > blen || blen - pos < 20 {
        return Err(AsepriteError::UnexpectedEnd);
    }
    let num_palette_entries = read_u32(bytes, pos).unwrap();
    let first_color_index = read_u32(bytes, pos + 4).unwrap();
    let last_color_index = read_u32(bytes, pos + 8).unwrap();
    let ghost s = bytes@;
    let ghost start = pos + 20;
    let mut chunk = PaletteChunk { first_color_index, last_color_index, color_entries: Vec::new() };
    let mut cur: usize = pos + 20;
    let mut index: u32 = 0;
    let ghost mut views: Seq<PaletteEntryView> = Seq::empty();
    while index < num_palette_entries
        invariant
            index <= num_palette_entries,
            s == bytes@,
            start == pos + 20,
            pos + 20 <= s.len(),
            last_color_index == le_u32(s, pos + 8),
            num_palette_entries == le_u32(s, pos as int),
            first_color_index == le_u32(s, pos + 4),
            index <= u32::MAX - first_color_index + 1,
            palette_entries_at(s, start, index as nat) == Ok::<
                (Seq<PaletteEntryView>, int),
                AsepriteError,
            >((views, cur as int)),
            chunk.first_color_index == first_color_index,
            chunk.last_color_index == last_color_index,
            chunk.color_entries@.len() == index,
            views.len() == index,
            forall|k: int|
                0 <= k < index ==> {
                    &&& (#[trigger] chunk.color_entries@[k]).matches(views[k])
                    &&& chunk.color_entries@[k].index == first_color_index + k
                },
        decreases num_palette_entries - index,
    {
        let ghost prev = palette_entries_at(s, start, index as nat);
        let entry = read_palette_entry(bytes, cur);
        let (color, name, after) = match entry {
            Ok(e) => e,
            Err(e) => {
                proof {
                    let n1 = (index + 1) as nat;
                    assert(palette_entries_at(s, start, n1) == Err::<
                        (Seq<PaletteEntryView>, int),
                        AsepriteError,
                    >(e));
                    let fitting = u32::MAX - first_color_index + 1;
                    if num_palette_entries <= fitting {
                        lemma_palette_entries_error_persists(s, start, n1, num_palette_entries as nat);
                    } else {
                        lemma_palette_entries_error_persists(s, start, n1, (fitting + 1) as nat);
                    }
                    assert(palette_chunk_at(s, pos as int) == Err::<(PaletteView, int), AsepriteError>(e));
                }
                return Err(e);
            },
        };
        proof {
            let ghost (v, next) = palette_entry_at(s, cur as int)->Ok_0;
            views = views.push(v);
        }
        let entry_index = match index.checked_add(first_color_index) {
            Some(i) => i,
            None => {
                proof {
                    let fitting = u32::MAX - first_color_index + 1;
                    assert(index == fitting);
                    assert(num_palette_entries > fitting);
                    assert(palette_entries_at(s, start, (fitting + 1) as nat) is Ok);
                    assert(palette_chunk_at(s, pos as int) == Err::<(PaletteView, int), AsepriteError>(
                        AsepriteError::PaletteIndexOverflow,
                    ));
                }
                return Err(AsepriteError::PaletteIndexOverflow);
            },
        };
        chunk.color_entries.push(PaletteColorEntry { index: entry_index, color, name });
        cur = after;
        index = index + 1;
    }
    Ok((chunk, cur))
}

// -------------------------------------------------------------------------------------------------
// Layer chunk
//

/// The fixed part of a layer chunk body.
#[derive(Debug, Clone, Copy)]
pub struct LayerChunkC {
    pub flags: u16,
    pub layer_type: u16,
    pub layer_child_level: u16,
    pub default_layer_width_in_pixels: u16,
    pub default_layer_height_in_pixels: u16,
    pub blend_mode: u16,
    pub opacity: u8,
    pub _reserved: [u8; 3],
}

impl LayerChunkC {
    pub open spec fn encoded_at(l: LayerChunkC, s: Seq<u8>, at: int) -> bool {
        &&& l.flags == le_u16(s, at)
        &&& l.layer_type == le_u16(s, at + 2)
        &&& l.layer_child_level == le_u16(s, at + 4)
        &&& l.default_layer_width_in_pixels == le_u16(s, at + 6)
        &&& l.default_layer_height_in_pixels == le_u16(s, at + 8)
        &&& l.blend_mode == le_u16(s, at + 10)
        &&& l.opacity == s[at + 12]
        &&& l._reserved@ == s.subrange(at + 13, at + 16)
    }

    /// Reads the fixed part of a layer chunk at `pos`.
    pub fn read(bytes: &[u8], pos: usize) -> (r: Option<LayerChunkC>)
        ensures
            r is Some <==> pos + layer_chunk_size() <= bytes@.len(),
            r matches Some(l) ==> LayerChunkC::encoded_at(l, bytes@, pos as int),
    {
        if pos > bytes.len() || bytes.len() - pos < 16 {
            return None;
        }
        Some(
            LayerChunkC {
                flags: read_u16(bytes, pos)?,
                layer_type: read_u16(bytes, pos + 2)?,
                layer_child_level: read_u16(bytes, pos + 4)?,
                default_layer_width_in_pixels: read_u16(bytes, pos + 6)?,
                default_layer_height_in_pixels: read_u16(bytes, pos + 8)?,
                blend_mode: read_u16(bytes, pos + 10)?,
                opacity: bytes[pos + 12],
                _reserved: read_array(bytes, pos + 13),
            },
        )
    }
}

/// The layer chunk body at `at`: the fixed part, then the layer name. On
/// success the decoded name and the offset after the chunk body.
pub open spec fn layer_chunk_at(s: Seq<u8>, at: int) -> Result<(Seq<char>, int), AsepriteError> {
    if at + layer_chunk_size() > s.len() {
        Err(AsepriteError::UnexpectedEnd)
    } else {
        match string_at(s, at + layer_chunk_size()) {
            None => Err(AsepriteError::UnexpectedEnd),
            Some((None, _)) => Err(AsepriteError::InvalidUtf8),
            Some((Some(name), next)) => Ok((name, next)),
        }
    }
}

/// Reads a layer chunk body at `pos`: its fixed part and the layer name.
pub fn read_chunk_layer(bytes: &[u8], pos: usize) -> (r: Result<(LayerChunkC, String, usize), AsepriteError>)
    ensures
        match layer_chunk_at(bytes@, pos as int) {
            Err(e) => r == Err::<(LayerChunkC, String, usize), AsepriteError>(e),
            Ok((name, next)) => r matches Ok((chunk, layer_name, after)) && LayerChunkC::encoded_at(
                chunk,
                bytes@,
                pos as int,
            ) && layer_name@ == name && after == next,
        },
{
    let blen = bytes.len();
    let chunk = match LayerChunkC::read(bytes, pos) {
        Some(chunk) => chunk,
        None => return Err(AsepriteError::UnexpectedEnd),
    };
    let (layer_name, after) = deserialize_string(bytes, pos + 16)?;
    Ok((chunk, layer_name, after))
}

// -------------------------------------------------------------------------------------------------
// Whole file
//

/// What the start of an Aseprite file holds: its header, the first frame
/// header, the palette if the first chunk is one, and the layer if the chunk
/// following the (skipped) old palette chunk is one.
#[derive(Debug)]
pub struct AsepriteFileInfo {
    pub header: HeaderC,
    pub frame: FrameC,
    pub palette: Option<PaletteChunk>,
    pub layer: Option<(LayerChunkC, String)>,
}

/// Where the parts of a readable file lie and what the variable-size parts say.
pub struct AsepriteFileView {
    pub palette: Option<PaletteView>,
    pub layer_at: Option<int>,
    pub layer_name: Seq<char>,
}

/// Reading the start of an Aseprite file: the header at offset 0 (magic
/// `0xA5E0`), the frame header at 128 (magic `0xF1FA`), then three chunk
/// headers in a row. A palette chunk as the first chunk is read; an old
/// palette chunk as the second is skipped; a layer chunk as the third is read.
/// A chunk of another type has only its header read.
pub open spec fn aseprite_file_spec(s: Seq<u8>) -> Result<AsepriteFileView, AsepriteError> {
    if s.len() < header_size() {
        Err(AsepriteError::UnexpectedEnd)
    } else if le_u16(s, 4) != magic_number_header() {
        Err(AsepriteError::BadHeaderMagic(le_u16(s, 4)))
    } else if s.len() < header_size() + frame_size() {
        Err(AsepriteError::UnexpectedEnd)
    } else if le_u16(s, 132) != magic_number_frame() {
        Err(AsepriteError::BadFrameMagic(le_u16(s, 132)))
    } else if s.len() < 150 {
        Err(AsepriteError::UnexpectedEnd)
    } else {
        let first_chunk = if le_u16(s, 148) == chunktype_palette() {
            match palette_chunk_at(s, 150) {
                Err(e) => Err(e),
                Ok((palette, next)) => Ok((Some(palette), next)),
            }
        } else {
            Ok((None, 150))
        };
        match first_chunk {
            Err(e) => Err(e),
            Ok((palette, p2)) => if p2 + 6 > s.len() {
                Err(AsepriteError::UnexpectedEnd)
            } else {
                let t2 = le_u16(s, p2 + 4);
                let size2 = le_u32(s, p2);
                let second_chunk = if t2 == chunktype_old_palette0() || t2
                    == chunktype_old_palette1() {
                    if size2 < chunkheader_size() {
                        Err(AsepriteError::ChunkTooSmall)
                    } else {
                        Ok(p2 + size2)
                    }
                } else {
                    Ok(p2 + 6)
                };
                match second_chunk {
                    Err(e) => Err(e),
                    Ok(p3) => if p3 + 6 > s.len() {
                        Err(AsepriteError::UnexpectedEnd)
                    } else if le_u16(s, p3 + 4) == chunktype_layer() {
                        match layer_chunk_at(s, p3 + 6) {
                            Err(e) => Err(e),
                            Ok((name, _)) => Ok(
                                AsepriteFileView { palette, layer_at: Some(p3 + 6), layer_name: name },
                            ),
                        }
                    } else {
                        Ok(AsepriteFileView { palette, layer_at: None, layer_name: Seq::empty() })
                    },
                }
            },
        }
    }
}

/// Reads the start of an Aseprite file held in `bytes`.
pub fn read_aseprite_file(bytes: &[u8]) -> (r: Result<AsepriteFileInfo, AsepriteError>)
    ensures
        match aseprite_file_spec(bytes@) {
            Err(e) => r == Err::<AsepriteFileInfo, AsepriteError>(e),
            Ok(v) => r matches Ok(info) && {
                &&& HeaderC::encoded_at(info.header, bytes@, 0)
                &&& FrameC::encoded_at(info.frame, bytes@, header_size())
                &&& match (info.palette, v.palette) {
                    (Some(chunk), Some(pv)) => chunk.matches(pv),
                    (None, None) => true,
                    _ => false,
                }
                &&& match (info.layer, v.layer_at) {
                    (Some((chunk, name)), Some(at)) => LayerChunkC::encoded_at(chunk, bytes@, at)
                        && name@ == v.layer_name,
                    (None, None) => true,
                    _ => false,
                }
            },
        },
{
    let blen = bytes.len();
    let header = match HeaderC::read(bytes, 0) {
        Some(header) => header,
        None => return Err(AsepriteError::UnexpectedEnd),
    };
    if header.magic_number != 0xA5E0 {
        return Err(AsepriteError::BadHeaderMagic(header.magic_number));
    }
    let frame = match FrameC::read(bytes, 128) {
        Some(frame) => frame,
        None => return Err(AsepriteError::UnexpectedEnd),
    };
    if frame.magic_number != 0xF1FA {
        return Err(AsepriteError::BadFrameMagic(frame.magic_number));
    }

    // Palette chunk
    let chunk_header = match ChunkHeaderC::read(bytes, 144) {
        Some(c) => c,
        None => return Err(AsepriteError::UnexpectedEnd),
    };
    let mut pos: usize = 150;
    let palette = if chunk_header.chunk_type == 0x2019 {
        let (chunk, after) = read_chunk_palette(bytes, pos)?;
        pos = after;
        Some(chunk)
    } else {
        None
    };

    // Old palette chunk
    let chunk_header = match ChunkHeaderC::read(bytes, pos) {
        Some(c) => c,
        None => return Err(AsepriteError::UnexpectedEnd),
    };
    pos = pos + 6;
    if chunk_header.chunk_type == 0x0004 || chunk_header.chunk_type == 0x0011 {
        if chunk_header.chunk_size < 6 {
            return Err(AsepriteError::ChunkTooSmall);
        }
        let skip = (chunk_header.chunk_size - 6) as usize;
        if skip > blen - pos {
            // Nothing but the end of the data lies beyond the skipped chunk.
            return Err(AsepriteError::UnexpectedEnd);
        }
        pos = pos + skip;
    }

    // Layer chunk
    let chunk_header = match ChunkHeaderC::read(bytes, pos) {
        Some(c) => c,
        None => return Err(AsepriteError::UnexpectedEnd),
    };
    let layer = if chunk_header.chunk_type == 0x2004 {
        let (chunk, layer_name, _after) = read_chunk_layer(bytes, pos + 6)?;
        Some((chunk, layer_name))
    } else {
        None
    };
    Ok(AsepriteFileInfo { header, frame, palette, layer })
}

} // verus!
