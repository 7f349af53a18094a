//! Frames of the sprite sheets that Aseprite exports: which frame a pivot
//! layer entry belongs to (the number at the end of its file name) and where
//! its pivot point lies.
use vstd::prelude::*;

use crate::atlas::AtlasRegion;
use crate::image::IRect;
use crate::text::chars_of;

verus! {

/// An integer rectangle of a sprite sheet frame.
#[derive(Clone, Copy, Debug, PartialEq, Eq)]
pub struct FrameRect {
    pub x: u32,
    pub y: u32,
    pub w: u32,
    pub h: u32,
}

/// One frame of an exported sprite sheet.
#[derive(Debug)]
pub struct AsepriteFrame {
    pub filename: String,
    pub frame: FrameRect,
    pub rotated: bool,
    pub trimmed: bool,
    pub sprite_source_size: FrameRect,
    pub source_size: (u32, u32),
    pub duration: u32,
}

// -------------------------------------------------------------------------------------------------
// Specification of the frame index in a file name
//

/// The characters for which `char::is_whitespace` holds: those with the
/// Unicode `White_Space` property.
pub open spec fn is_whitespace_spec(c: char) -> bool {
    let v = c as u32;
    ||| 0x09 <= v <= 0x0d
    ||| v == 0x20
    ||| v == 0x85
    ||| v == 0xa0
    ||| v == 0x1680
    ||| 0x2000 <= v <= 0x200a
    ||| v == 0x2028
    ||| v == 0x2029
    ||| v == 0x202f
    ||| v == 0x205f
    ||| v == 0x3000
}

pub fn is_whitespace(c: char) -> (r: bool)
    ensures
        r == is_whitespace_spec(c),
{
    let v = c as u32;
    (0x09 <= v && v <= 0x0d) || v == 0x20 || v == 0x85 || v == 0xa0 || v == 0x1680 || (0x2000 <= v
        && v <= 0x200a) || v == 0x2028 || v == 0x2029 || v == 0x202f || v == 0x205f || v == 0x3000
}

/// The text that Aseprite appends to the file name of every frame.
pub open spec fn aseprite_extension() -> Seq<char> {
    seq!['.', 'a', 's', 'e', 'p', 'r', 'i', 't', 'e']
}

/// `s` with every occurrence of `pat` removed, matching left to right
/// without overlap, as `str::replace(pat, "")` does.
pub open spec fn remove_all(s: Seq<char>, pat: Seq<char>) -> Seq<char>
    recommends
        pat.len() > 0,
    decreases s.len(),
{
    if pat.len() == 0 || s.len() < pat.len() {
        s
    } else if s.subrange(0, pat.len() as int) == pat {
        remove_all(s.subrange(pat.len() as int, s.len() as int), pat)
    } else {
        seq![s[0]] + remove_all(s.drop_first(), pat)
    }
}

/// `s` without its trailing whitespace.
pub open spec fn trim_end_whitespace(s: Seq<char>) -> Seq<char>
    decreases s.len(),
{
    if s.len() > 0 && is_whitespace_spec(s.last()) {
        trim_end_whitespace(s.drop_last())
    } else {
        s
    }
}

/// The longest whitespace-free suffix of `s`.
pub open spec fn trailing_word(s: Seq<char>) -> Seq<char>
    decreases s.len(),
{
    if s.len() > 0 && !is_whitespace_spec(s.last()) {
        trailing_word(s.drop_last()).push(s.last())
    } else {
        Seq::empty()
    }
}

/// The last item of `s.split_whitespace()`, if there is one.
pub open spec fn last_whitespace_separated_part(s: Seq<char>) -> Option<Seq<char>> {
    let trimmed = trim_end_whitespace(s);
    if trimmed.len() == 0 {
        None
    } else {
        Some(trailing_word(trimmed))
    }
}

pub open spec fn is_ascii_digit(c: char) -> bool {
    '0' <= c <= '9'
}

pub open spec fn all_ascii_digits(d: Seq<char>) -> bool {
    forall|i: int| 0 <= i < d.len() ==> #[trigger] is_ascii_digit(d[i])
}

/// The number that a string of decimal digits denotes.
pub open spec fn decimal_value(d: Seq<char>) -> nat
    decreases d.len(),
{
    if d.len() == 0 {
        0
    } else {
        decimal_value(d.drop_last()) * 10 + ((d.last() as u32) - ('0' as u32)) as nat
    }
}

/// What `str::parse::<usize>` gives: an optional `+` followed by at least one
/// ASCII digit, denoting a number no greater than `usize::MAX`.
pub open spec fn parse_usize_spec(t: Seq<char>) -> Option<usize> {
    let digits = if t.len() > 0 && t[0] == '+' {
        t.drop_first()
    } else {
        t
    };
    if digits.len() > 0 && all_ascii_digits(digits) && decimal_value(digits) <= usize::MAX {
        Some(decimal_value(digits) as usize)
    } else {
        None
    }
}

/// The frame index encoded in an exported frame's file name: remove the
/// `.aseprite` extension, take the last whitespace separated part, and read it
/// as a `usize`.
pub open spec fn frame_index_spec(filename: Seq<char>) -> Option<usize> {
    match last_whitespace_separated_part(remove_all(filename, aseprite_extension())) {
        None => None,
        Some(part) => parse_usize_spec(part),
    }
}

// -------------------------------------------------------------------------------------------------
// Lemmas
//

proof fn lemma_decimal_value_prefix_monotone(d: Seq<char>, i: int)
    requires
        0 <= i <= d.len(),
        all_ascii_digits(d),
    ensures
        decimal_value(d.subrange(0, i)) <= decimal_value(d),
    decreases d.len() - i,
{
    if i < d.len() {
        let p = d.subrange(0, i + 1);
        assert(p.drop_last() =~= d.subrange(0, i));
        assert(is_ascii_digit(d[i]));
        assert(decimal_value(p) == decimal_value(d.subrange(0, i)) * 10 + ((d[i] as u32) - (
        '0' as u32)) as nat);
        lemma_decimal_value_prefix_monotone(d, i + 1);
    } else {
        assert(d.subrange(0, i) =~= d);
    }
}

// -------------------------------------------------------------------------------------------------
// Executable functions
//

/// `chars[i..]` starts with `.aseprite`.
fn extension_at(chars: &Vec<char>, i: usize) -> (r: bool)
    requires
        i <= chars@.len(),
    ensures
        r == (chars@.len() - i >= 9 && chars@.subrange(i as int, i + 9) == aseprite_extension()),
{
    if chars.len() - i < 9 {
        return false;
    }
    let r = chars[i] == '.' && chars[i + 1] == 'a' && chars[i + 2] == 's' && chars[i + 3] == 'e'
        && chars[i + 4] == 'p' && chars[i + 5] == 'r' && chars[i + 6] == 'i' && chars[i + 7] == 't'
        && chars[i + 8] == 'e';
    proof {
        if r {
            assert(chars@.subrange(i as int, i + 9) =~= aseprite_extension());
        } else {
            if chars@.subrange(i as int, i + 9) == aseprite_extension() {
                assert(chars@.subrange(i as int, i + 9)[0] == '.');
            }
        }
    }
    r
}

/// `chars` with every `.aseprite` removed.
fn remove_extension(chars: &Vec<char>) -> (r: Vec<char>)
    ensures
        r@ == remove_all(chars@, aseprite_extension()),
{
    let n = chars.len();
    let mut r: Vec<char> = Vec::new();
    let mut i: usize = 0;
    assert(chars@.subrange(0, n as int) =~= chars@);
    assert(r@ + chars@ =~= chars@);
    while i < n
        invariant
            n == chars@.len(),
            i <= n,
            remove_all(chars@, aseprite_extension()) == r@ + remove_all(
                chars@.subrange(i as int, n as int),
                aseprite_extension(),
            ),
        decreases n - i,
    {
        let ghost rest = chars@.subrange(i as int, n as int);
        if extension_at(chars, i) {
            proof {
                assert(rest.subrange(0, 9) =~= chars@.subrange(i as int, i + 9));
                assert(rest.subrange(9, rest.len() as int) =~= chars@.subrange(i + 9, n as int));
            }
            i = i + 9;
        } else {
            proof {
                if rest.len() >= 9 {
                    assert(rest.subrange(0, 9) =~= chars@.subrange(i as int, i + 9));
                }
                assert(rest.drop_first() =~= chars@.subrange(i + 1, n as int));
                assert(r@.push(chars@[i as int]) + remove_all(rest.drop_first(), aseprite_extension())
                    =~= r@ + (seq![rest[0]] + remove_all(rest.drop_first(), aseprite_extension())));
            }
            r.push(chars[i]);
            i = i + 1;
        }
    }
    proof {
        assert(chars@.subrange(n as int, n as int) =~= Seq::<char>::empty());
        assert(r@ + Seq::<char>::empty() =~= r@);
    }
    r
}

/// The last whitespace separated part of `chars`, if any.
fn last_part(chars: &Vec<char>) -> (r: Option<Vec<char>>)
    ensures
        match last_whitespace_separated_part(chars@) {
            None => r is None,
            Some(part) => r matches Some(v) && v@ == part,
        },
{
    let mut end: usize = chars.len();
    assert(chars@.subrange(0, end as int) =~= chars@);
    while end > 0 && is_whitespace(chars[end - 1])
        invariant
            end <= chars@.len(),
            trim_end_whitespace(chars@) == trim_end_whitespace(chars@.subrange(0, end as int)),
        decreases end,
    {
        proof {
            assert(chars@.subrange(0, end as int).drop_last() =~= chars@.subrange(0, end - 1));
        }
        end = end - 1;
    }
    let ghost trimmed = chars@.subrange(0, end as int);
    assert(trim_end_whitespace(trimmed) == trimmed);
    if end == 0 {
        return None;
    }
    let mut start: usize = end;
    while start > 0 && !is_whitespace(chars[start - 1])
        invariant
            start <= end <= chars@.len(),
            trimmed == chars@.subrange(0, end as int),
            trailing_word(trimmed) == trailing_word(chars@.subrange(0, start as int)) + chars@.subrange(
                start as int,
                end as int,
            ),
        decreases start,
    {
        proof {
            let p = chars@.subrange(0, start as int);
            assert(p.drop_last() =~= chars@.subrange(0, start - 1));
            assert(trailing_word(p) == trailing_word(p.drop_last()).push(p.last()));
            assert(trailing_word(p.drop_last()).push(p.last()) + chars@.subrange(
                start as int,
                end as int,
            ) =~= trailing_word(chars@.subrange(0, start - 1)) + chars@.subrange(
                start - 1,
                end as int,
            ));
        }
        start = start - 1;
    }
    let mut part: Vec<char> = Vec::new();
    let mut k: usize = start;
    while k < end
        invariant
            start <= k <= end <= chars@.len(),
            part@ == chars@.subrange(start as int, k as int),
        decreases end - k,
    {
        part.push(chars[k]);
        k = k + 1;
        assert(part@ =~= chars@.subrange(start as int, k as int));
    }
    proof {
        assert(trailing_word(chars@.subrange(0, start as int)) =~= Seq::<char>::empty());
        assert(trailing_word(trimmed) =~= chars@.subrange(start as int, end as int));
    }
    Some(part)
}

/// Reads `text` as a `usize` the way `str::parse::<usize>` does.
pub fn parse_usize(text: &Vec<char>) -> (r: Option<usize>)
    ensures
        r == parse_usize_spec(text@),
{
    let mut i: usize = 0;
    if text.len() > 0 && text[0] == '+' {
        i = 1;
    }
    let ghost digits = text@.subrange(i as int, text@.len() as int);
    proof {
        if text@.len() > 0 && text@[0] == '+' {
            assert(digits =~= text@.drop_first());
        } else {
            assert(digits =~= text@);
        }
    }
    if i == text.len() {
        return None;
    }
    let start = i;
    let mut value: usize = 0;
    while i < text.len()
        invariant
            start <= i <= text@.len(),
            start < text@.len(),
            digits == text@.subrange(start as int, text@.len() as int),
            digits == (if text@.len() > 0 && text@[0] == '+' {
                text@.drop_first()
            } else {
                text@
            }),
            forall|k: int| start <= k < i ==> #[trigger] is_ascii_digit(text@[k]),
            value == decimal_value(text@.subrange(start as int, i as int)),
        decreases text@.len() - i,
    {
        let c = text[i];
        if !('0' <= c && c <= '9') {
            proof {
                assert(!is_ascii_digit(digits[i - start]));
            }
            return None;
        }
        let digit = (c as u32 - '0' as u32) as usize;
        let ghost p = text@.subrange(start as int, i + 1);
        proof {
            assert(p.drop_last() =~= text@.subrange(start as int, i as int));
            assert(decimal_value(p) == value * 10 + digit);
        }
        let next = match value.checked_mul(10) {
            Some(v) => v.checked_add(digit),
            None => None,
        };
        match next {
            Some(v) => {
                value = v;
            },
            None => {
                proof {
                    assert(decimal_value(p) > usize::MAX);
                    if all_ascii_digits(digits) {
                        assert(digits.subrange(0, i + 1 - start) =~= p);
                        lemma_decimal_value_prefix_monotone(digits, i + 1 - start);
                    }
                }
                return None;
            },
        }
        i = i + 1;
    }
    proof {
        assert(digits =~= text@.subrange(start as int, i as int));
        assert forall|k: int| 0 <= k < digits.len() implies #[trigger] is_ascii_digit(digits[k]) by {
            assert(is_ascii_digit(text@[start + k]));
        }
    }
    Some(value)
}

/// The frame index at the end of an exported frame's file name, if there is one.
pub fn frame_index_from_filename(filename: &str) -> (r: Option<usize>)
    ensures
        r == frame_index_spec(filename@),
{
    let chars = chars_of(filename);
    let without_suffix = remove_extension(&chars);
    match last_part(&without_suffix) {
        None => None,
        Some(part) => parse_usize(&part),
    }
}

/// The index of the frame that `frame` belongs to, taken from the number at
/// the end of its file name.
pub fn get_frame_index_for_frame(frame: &AsepriteFrame) -> (r: usize)
    requires
        frame_index_spec(frame.filename@) is Some,
    ensures
        Some(r) == frame_index_spec(frame.filename@),
{
    match frame_index_from_filename(frame.filename.as_str()) {
        Some(index) => index,
        None => 0,
    }
}

/// The pivot point a one pixel frame of a pivot layer marks.
pub fn get_pivot_for_frame(frame: &AsepriteFrame) -> (r: (u32, u32))
    requires
        frame.frame.w == 1,
        frame.frame.h == 1,
    ensures
        r == (frame.sprite_source_size.x, frame.sprite_source_size.y),
{
    (frame.sprite_source_size.x, frame.sprite_source_size.y)
}

/// The pivot recorded for frame index `k` by the last of the first `n`
/// frames whose file name gives index `k`, if any does.
pub open spec fn last_pivot_for_index(frames: Seq<AsepriteFrame>, n: int, k: int) -> Option<(u32, u32)>
    decreases n,
{
    if n <= 0 {
        None
    } else if frame_index_spec(frames[n - 1].filename@) == Some(k as usize) {
        Some((frames[n - 1].sprite_source_size.x, frames[n - 1].sprite_source_size.y))
    } else {
        last_pivot_for_index(frames, n - 1, k)
    }
}

/// Records the pivot point of every pivot layer frame under the frame index
/// its file name gives; a later frame overwrites an earlier one.
pub fn collect_pivots_from_frames(frames: &[AsepriteFrame], pivots: &mut Vec<(u32, u32)>)
    requires
        forall|i: int|
            0 <= i < frames@.len() ==> {
                &&& frame_index_spec((#[trigger] frames@[i]).filename@) matches Some(index) && index
                    < old(pivots)@.len()
                &&& frames@[i].frame.w == 1
                &&& frames@[i].frame.h == 1
            },
    ensures
        final(pivots)@.len() == old(pivots)@.len(),
        forall|k: int|
            0 <= k < final(pivots)@.len() ==> #[trigger] final(pivots)@[k] == match last_pivot_for_index(
                frames@,
                frames@.len() as int,
                k,
            ) {
                Some(pivot) => pivot,
                None => old(pivots)@[k],
            },
{
    let mut i: usize = 0;
    while i < frames.len()
        invariant
            i <= frames@.len(),
            pivots@.len() == old(pivots)@.len(),
            forall|i: int|
                0 <= i < frames@.len() ==> {
                    &&& frame_index_spec((#[trigger] frames@[i]).filename@) matches Some(index)
                        && index < old(pivots)@.len()
                    &&& frames@[i].frame.w == 1
                    &&& frames@[i].frame.h == 1
                },
            forall|k: int|
                0 <= k < pivots@.len() ==> #[trigger] pivots@[k] == match last_pivot_for_index(
                    frames@,
                    i as int,
                    k,
                ) {
                    Some(pivot) => pivot,
                    None => old(pivots)@[k],
                },
        decreases frames@.len() - i,
    {
        let frame = &frames[i];
        let frame_index = get_frame_index_for_frame(frame);
        let pivot = get_pivot_for_frame(frame);
        let ghost before = pivots@;
        pivots.set(frame_index, pivot);
        proof {
            assert forall|k: int| 0 <= k < pivots@.len() implies #[trigger] pivots@[k] == match last_pivot_for_index(
                frames@,
                i + 1,
                k,
            ) {
                Some(pivot) => pivot,
                None => old(pivots)@[k],
            } by {
                assert(frames@[i as int] == *frame);
                if k == frame_index as int {
                    assert(frame_index_spec(frames@[i as int].filename@) == Some(k as usize));
                } else {
                    assert(frame_index_spec(frames@[i as int].filename@) != Some(k as usize));
                    assert(pivots@[k] == before[k]);
                }
            }
        }
        i = i + 1;
    }
}

/// The atlas region of one frame of a sprite sheet packed at `region`: an
/// empty frame gets the shared empty region (its zero rectangle could lie on
/// another sprite), any other frame the part of the sheet its rectangle gives.
pub fn frame_region(default_region: AtlasRegion, region: AtlasRegion, frame: FrameRect) -> (r: AtlasRegion)
    requires
        !(frame.w == 0 && frame.h == 0) ==> {
            &&& i32::MIN <= region.rect.x + (frame.x as i32) <= i32::MAX
            &&& i32::MIN <= region.rect.y + (frame.y as i32) <= i32::MAX
        },
    ensures
        frame.w == 0 && frame.h == 0 ==> r == default_region,
        !(frame.w == 0 && frame.h == 0) ==> r == (AtlasRegion {
            rect: IRect {
                x: (region.rect.x + (frame.x as i32)) as i32,
                y: (region.rect.y + (frame.y as i32)) as i32,
                width: frame.w as i32,
                height: frame.h as i32,
            },
            atlas_index: region.atlas_index,
        }),
{
    if frame.w == 0 && frame.h == 0 {
        default_region
    } else {
        let sub_rect = IRect::new(frame.x as i32, frame.y as i32, frame.w as i32, frame.h as i32);
        region.sub_region_relative(sub_rect)
    }
}

} // verus!
