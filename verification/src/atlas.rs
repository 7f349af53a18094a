//! Texture atlas packing: images are placed into square atlas textures with
//! `rect_packer`'s skyline packer, opening a new atlas whenever an image fits
//! none of the existing ones, and their pixels are copied into the atlas
//! images.
use vstd::prelude::*;

use rect_packer::DensePacker;

use crate::image::{lemma_index_bounds, transparent_spec, IRect, Image, ImageView};

verus! {

#[verifier::external_type_specification]
#[verifier::external_body]
pub struct ExDensePacker(rect_packer::DensePacker);

/// The skyline of a packer: its segments `(left, y, width)` in order of `left`.
/// The area below the skyline is taken; a segment's `y` is the height its
/// columns are filled up to.
pub uninterp spec fn packer_skylines(p: DensePacker) -> Seq<(i32, i32, i32)>;

/// The `(width, height)` a packer was created with.
pub uninterp spec fn packer_size(p: DensePacker) -> (i32, i32);

/// Whether `DensePacker::pack(width, height, false)` finds room in a packer.
pub uninterp spec fn packer_accepts(p: DensePacker, width: i32, height: i32) -> bool;

pub open spec fn max0(v: i32) -> i32 {
    if v < 0 {
        0
    } else {
        v
    }
}

/// The skyline segments follow each other without gap or overlap from
/// column 0 to column `width`, each of non-negative width.
pub open spec fn skylines_partition(sk: Seq<(i32, i32, i32)>, width: int) -> bool {
    &&& sk.len() > 0
    &&& sk[0].0 == 0
    &&& sk.last().0 + sk.last().2 == width
    &&& forall|i: int| 0 <= i < sk.len() ==> #[trigger] sk[i].2 >= 0
    &&& forall|i: int| 0 <= i < sk.len() - 1 ==> #[trigger] sk[i].0 + sk[i].2 == sk[i + 1].0
}

/// The height column `x` is filled up to: the `y` of the last segment that
/// starts at or left of `x` (zero left of the first segment).
pub open spec fn height_at(sk: Seq<(i32, i32, i32)>, x: int) -> int
    decreases sk.len(),
{
    if sk.len() == 0 {
        0
    } else if sk.last().0 <= x {
        sk.last().1 as int
    } else {
        height_at(sk.drop_last(), x)
    }
}

/// `rect_packer::DensePacker::new`: a packer whose size is the given size with
/// negative values raised to zero (`max(0, ..)` in the source) and whose
/// skyline is one segment at height 0 across its width.
#[verifier::external_body]
fn dense_packer_new(width: i32, height: i32) -> (r: DensePacker)
    ensures
        packer_size(r) == (max0(width), max0(height)),
        packer_skylines(r) == seq![(0i32, 0i32, max0(width))],
{
    DensePacker::new(width, height)
}

/// `rect_packer::DensePacker::pack` without rotation. As its source shows
/// (`pack`, `can_put`, `find_skyline`, `split`, `merge`): a rectangle with a
/// non-positive side is refused, and a refusal leaves the packer as it was. A
/// returned rectangle has the requested size, lies inside the packer's area
/// and on or above the skyline over all its columns; afterwards the skyline
/// stands at the rectangle's bottom over those columns and is unchanged over
/// the other columns of the packer, and its segments still cover the width
/// without gap or overlap. A packer whose skyline is the single segment of a
/// new packer places a rectangle that fits its area at the origin. Which
/// columns a rectangle goes to in other cases is left to the name
/// `packer_accepts` and to the returned value. The `requires` keeps the
/// source's `i32` sums of positions and sizes from overflowing.
#[verifier::external_body]
fn dense_packer_pack(p: &mut DensePacker, width: i32, height: i32) -> (r: Option<IRect>)
    requires
        packer_size(*old(p)).0 + width <= i32::MAX,
        packer_size(*old(p)).1 + height <= i32::MAX,
        skylines_partition(packer_skylines(*old(p)), packer_size(*old(p)).0 as int),
    ensures
        r is Some <==> packer_accepts(*old(p), width, height),
        packer_size(*final(p)) == packer_size(*old(p)),
        (width <= 0 || height <= 0) ==> r is None,
        r is None ==> *final(p) == *old(p),
        skylines_partition(packer_skylines(*final(p)), packer_size(*old(p)).0 as int),
        r matches Some(rect) ==> {
            &&& rect.width == width
            &&& rect.height == height
            &&& rect.inside(packer_size(*old(p)).0 as int, packer_size(*old(p)).1 as int)
            &&& forall|x: int|
                rect.x <= x < rect.x + width ==> #[trigger] height_at(packer_skylines(*old(p)), x)
                    <= rect.y
            &&& forall|x: int|
                rect.x <= x < rect.x + width ==> #[trigger] height_at(packer_skylines(*final(p)), x)
                    == rect.y + height
            &&& forall|x: int|
                0 <= x < packer_size(*old(p)).0 && !(rect.x <= x < rect.x + width) ==> #[trigger] height_at(
                    packer_skylines(*final(p)),
                    x,
                ) == height_at(packer_skylines(*old(p)), x)
        },
        packer_skylines(*old(p)) == seq![(0i32, 0i32, packer_size(*old(p)).0)] ==> (r is Some <==> (0
            < width <= packer_size(*old(p)).0 && 0 < height <= packer_size(*old(p)).1)),
        packer_skylines(*old(p)) == seq![(0i32, 0i32, packer_size(*old(p)).0)] && r is Some ==> r->0.x
            == 0 && r->0.y == 0,
{
    p.pack(width, height, false).map(
        |rect: rect_packer::Rect| IRect { x: rect.x, y: rect.y, width: rect.width, height: rect.height },
    )
}

/// Two rectangles `(x, y, width, height)` share no pixel.
pub open spec fn rects_disjoint(a: (i32, i32, i32, i32), b: (i32, i32, i32, i32)) -> bool {
    ||| a.0 + a.2 <= b.0
    ||| b.0 + b.2 <= a.0
    ||| a.1 + a.3 <= b.1
    ||| b.1 + b.3 <= a.1
}

/// A rectangle of one of the atlas textures.
#[derive(Clone, Copy, Debug, PartialEq, Eq)]
pub struct AtlasRegion {
    pub rect: IRect,
    pub atlas_index: u32,
}

impl AtlasRegion {
    /// The part of this region given by `sub_rect`, whose position is relative
    /// to the region's top-left corner.
    pub fn sub_region_relative(&self, sub_rect: IRect) -> (r: AtlasRegion)
        requires
            i32::MIN <= self.rect.x + sub_rect.x <= i32::MAX,
            i32::MIN <= self.rect.y + sub_rect.y <= i32::MAX,
        ensures
            r.atlas_index == self.atlas_index,
            r.rect == (IRect {
                x: (self.rect.x + sub_rect.x) as i32,
                y: (self.rect.y + sub_rect.y) as i32,
                width: sub_rect.width,
                height: sub_rect.height,
            }),
    {
        AtlasRegion {
            rect: IRect {
                x: self.rect.x + sub_rect.x,
                y: self.rect.y + sub_rect.y,
                width: sub_rect.width,
                height: sub_rect.height,
            },
            atlas_index: self.atlas_index,
        }
    }
}

/// Largest atlas side length for which the packer's integer sums stay in range.
pub open spec fn max_atlas_size() -> i32 {
    0x3fff_ffff
}

/// The rectangle of an atlas region as `(x, y, width, height)`.
pub open spec fn rect_tuple(r: IRect) -> (i32, i32, i32, i32) {
    (r.x, r.y, r.width, r.height)
}

/// The rectangles placed per atlas once `r` is placed in atlas `index`, which
/// is an existing atlas or the next new one.
pub open spec fn with_placed(
    placed: Seq<Seq<(i32, i32, i32, i32)>>,
    index: int,
    r: (i32, i32, i32, i32),
) -> Seq<Seq<(i32, i32, i32, i32)>> {
    if index < placed.len() {
        placed.update(index, placed[index].push(r))
    } else {
        placed.push(seq![r])
    }
}

/// The rectangle `(x, y, width, height)` has positive size, lies inside a
/// square atlas of side `size`, and lies below skyline `sk` over its columns.
pub open spec fn placed_below(r: (i32, i32, i32, i32), size: int, sk: Seq<(i32, i32, i32)>) -> bool {
    &&& 0 <= r.0
    &&& 0 < r.2
    &&& r.0 + r.2 <= size
    &&& 0 <= r.1
    &&& 0 < r.3
    &&& r.1 + r.3 <= size
    &&& forall|x: int| r.0 <= x < r.0 + r.2 ==> r.1 + r.3 <= #[trigger] height_at(sk, x)
}

/// One skyline packer per atlas texture, all of the same square size, and the
/// rectangles placed in each atlas so far.
pub struct AtlasRectPacker {
    pub atlas_size: i32,
    pub atlas_packers: Vec<DensePacker>,
    pub placed_rects: Ghost<Seq<Seq<(i32, i32, i32, i32)>>>,
}

impl AtlasRectPacker {
    pub open spec fn wf(&self) -> bool {
        &&& 1 <= self.atlas_size <= max_atlas_size()
        &&& self.placed_rects@.len() == self.atlas_packers@.len()
        &&& forall|i: int|
            0 <= i < self.atlas_packers@.len() ==> {
                &&& #[trigger] packer_size(self.atlas_packers@[i]) == (self.atlas_size, self.atlas_size)
                &&& skylines_partition(packer_skylines(self.atlas_packers@[i]), self.atlas_size as int)
                &&& self.placed_rects@[i].len() == 0 ==> packer_skylines(self.atlas_packers@[i])
                    == seq![(0i32, 0i32, self.atlas_size)]
            }
        &&& forall|i: int, k: int|
            0 <= i < self.atlas_packers@.len() && 0 <= k < self.placed_rects@[i].len()
                ==> placed_below(
                #[trigger] self.placed_rects@[i][k],
                self.atlas_size as int,
                packer_skylines(self.atlas_packers@[i]),
            )
        &&& forall|i: int, k1: int, k2: int|
            0 <= i < self.atlas_packers@.len() && 0 <= k1 < self.placed_rects@[i].len() && 0 <= k2
                < self.placed_rects@[i].len() && k1 != k2 ==> rects_disjoint(
                #[trigger] self.placed_rects@[i][k1],
                #[trigger] self.placed_rects@[i][k2],
            )
    }

    /// The rectangles placed in each atlas so far, in order.
    pub open spec fn placed(&self) -> Seq<Seq<(i32, i32, i32, i32)>> {
        self.placed_rects@
    }

    pub fn new(atlas_size: i32) -> (r: AtlasRectPacker)
        requires
            1 <= atlas_size <= max_atlas_size(),
        ensures
            r.wf(),
            r.atlas_size == atlas_size,
            r.atlas_packers@.len() == 1,
            r.placed() == seq![Seq::<(i32, i32, i32, i32)>::empty()],
    {
        let mut atlas_packers: Vec<DensePacker> = Vec::new();
        atlas_packers.push(dense_packer_new(atlas_size, atlas_size));
        let ghost init: Seq<Seq<(i32, i32, i32, i32)>> = seq![Seq::empty()];
        let r = AtlasRectPacker { atlas_size, atlas_packers, placed_rects: Ghost(init) };
        assert(packer_skylines(r.atlas_packers@[0]) == seq![(0i32, 0i32, atlas_size)]);
        r
    }

    /// Packs a rectangle of the given size into the first atlas that has room
    /// for it, or into a new atlas appended at the end if none has. The
    /// rectangle shares no pixel with any rectangle placed in its atlas before.
    pub fn pack_image(&mut self, image_width: i32, image_height: i32) -> (region: AtlasRegion)
        requires
            old(self).wf(),
            old(self).atlas_packers@.len() < u32::MAX,
            0 < image_width <= old(self).atlas_size,
            0 < image_height <= old(self).atlas_size,
        ensures
            final(self).wf(),
            final(self).atlas_size == old(self).atlas_size,
            final(self).atlas_packers@.len() == old(self).atlas_packers@.len() + if region.atlas_index
                == old(self).atlas_packers@.len() {
                1int
            } else {
                0int
            },
            region.rect.width == image_width,
            region.rect.height == image_height,
            region.rect.inside(old(self).atlas_size as int, old(self).atlas_size as int),
            region.atlas_index <= old(self).atlas_packers@.len(),
            forall|j: int|
                0 <= j < region.atlas_index ==> !packer_accepts(
                    #[trigger] old(self).atlas_packers@[j],
                    image_width,
                    image_height,
                ) && old(self).placed()[j].len() > 0,
            region.atlas_index < old(self).atlas_packers@.len() ==> {
                &&& packer_accepts(
                    old(self).atlas_packers@[region.atlas_index as int],
                    image_width,
                    image_height,
                )
                &&& old(self).placed()[region.atlas_index as int].len() == 0 ==> region.rect.x == 0
                    && region.rect.y == 0
                &&& forall|k: int|
                    0 <= k < old(self).placed()[region.atlas_index as int].len() ==> rects_disjoint(
                        #[trigger] old(self).placed()[region.atlas_index as int][k],
                        (region.rect.x, region.rect.y, image_width, image_height),
                    )
                &&& final(self).placed() == old(self).placed().update(
                    region.atlas_index as int,
                    old(self).placed()[region.atlas_index as int].push(
                        (region.rect.x, region.rect.y, image_width, image_height),
                    ),
                )
            },
            region.atlas_index == old(self).atlas_packers@.len() ==> {
                &&& region.rect.x == 0
                &&& region.rect.y == 0
                &&& final(self).placed() == old(self).placed().push(
                    seq![(0i32, 0i32, image_width, image_height)],
                )
            },
    {
        let ghost old_packers = self.atlas_packers@;
        let ghost old_placed = self.placed_rects@;
        let num_atlases = self.atlas_packers.len();
        let mut atlas_index: usize = 0;
        while atlas_index < num_atlases
            invariant
                self.atlas_packers@ == old_packers,
                self.placed_rects@ == old_placed,
                old(self).atlas_packers@ == old_packers,
                old(self).placed_rects@ == old_placed,
                self.atlas_size == old(self).atlas_size,
                num_atlases == old_packers.len(),
                atlas_index <= num_atlases,
                old(self).wf(),
                0 < image_width <= self.atlas_size,
                0 < image_height <= self.atlas_size,
                old_packers.len() < u32::MAX,
                forall|j: int|
                    0 <= j < atlas_index ==> !packer_accepts(
                        #[trigger] old_packers[j],
                        image_width,
                        image_height,
                    ) && old_placed[j].len() > 0,
            decreases num_atlases - atlas_index,
        {
            proof {
                assert(packer_size(old_packers[atlas_index as int]) == (
                    self.atlas_size,
                    self.atlas_size,
                ));
            }
            let maybe_rect = dense_packer_pack(
                &mut self.atlas_packers[atlas_index],
                image_width,
                image_height,
            );
            if let Some(rect) = maybe_rect {
                let ghost a = atlas_index as int;
                let ghost new_rect = (rect.x, rect.y, image_width, image_height);
                let ghost old_sk = packer_skylines(old_packers[a]);
                proof {
                    self.placed_rects@ = old_placed.update(a, old_placed[a].push(new_rect));
                    assert(packer_size(old_packers[a]) == (self.atlas_size, self.atlas_size));
                    assert(self.atlas_packers@ == old_packers.update(a, self.atlas_packers@[a]));
                    lemma_wf_after_pack_into(*old(self), *self, a, new_rect);
                    if old_placed[a].len() == 0 {
                        assert(old_sk == seq![(0i32, 0i32, self.atlas_size)]);
                    }
                }
                return AtlasRegion { rect, atlas_index: atlas_index as u32 };
            }
            proof {
                assert(self.atlas_packers@ =~= old_packers);
                let a = atlas_index as int;
                assert(!packer_accepts(old_packers[a], image_width, image_height));
                assert(packer_size(old_packers[a]) == (self.atlas_size, self.atlas_size));
                if old_placed[a].len() == 0 {
                    assert(packer_skylines(old_packers[a]) == seq![(0i32, 0i32, self.atlas_size)]);
                    assert(false);
                }
                assert(old_placed[a].len() > 0);
                assert forall|j: int|
                    0 <= j < atlas_index + 1 implies !packer_accepts(
                    #[trigger] old_packers[j],
                    image_width,
                    image_height,
                ) && old_placed[j].len() > 0 by {
                    if j == a {
                        assert(old_placed[a].len() > 0);
                    }
                }
            }
            atlas_index = atlas_index + 1;
        }

        // The image fits none of the existing atlases, so it opens a new one.
        let mut atlas = dense_packer_new(self.atlas_size, self.atlas_size);
        let ghost fresh = atlas;
        let maybe_rect = dense_packer_pack(&mut atlas, image_width, image_height);
        let rect = match maybe_rect {
            Some(rect) => rect,
            None => {
                proof {
                    assert(false);
                }
                IRect { x: 0, y: 0, width: 0, height: 0 }
            },
        };
        proof {
            assert(packer_size(fresh) == (self.atlas_size, self.atlas_size));
            assert(skylines_partition(packer_skylines(atlas), self.atlas_size as int));
        }
        let atlas_index = self.atlas_packers.len() as u32;
        self.atlas_packers.push(atlas);
        let ghost new_rect = (0i32, 0i32, image_width, image_height);
        proof {
            self.placed_rects@ = old_placed.push(seq![new_rect]);
            lemma_wf_after_new_atlas(*old(self), atlas, *self, new_rect);
            assert(atlas_index as int == old_packers.len());
            assert forall|j: int| 0 <= j < old_packers.len() implies !packer_accepts(
                #[trigger] old(self).atlas_packers@[j],
                image_width,
                image_height,
            ) && old(self).placed()[j].len() > 0 by {
                assert(!packer_accepts(old_packers[j], image_width, image_height)
                    && old_placed[j].len() > 0);
            }
        }
        AtlasRegion { rect, atlas_index }
    }
}

/// A packer stays well formed when atlas `a` places `r` on or above its
/// skyline, and `r` shares no pixel with the rectangles placed there before.
proof fn lemma_wf_after_pack_into(p: AtlasRectPacker, q: AtlasRectPacker, a: int, r: (i32, i32, i32, i32))
    requires
        p.wf(),
        0 <= a < p.atlas_packers@.len(),
        q.atlas_size == p.atlas_size,
        q.atlas_packers@ == p.atlas_packers@.update(a, q.atlas_packers@[a]),
        q.placed_rects@ == p.placed_rects@.update(a, p.placed_rects@[a].push(r)),
        packer_size(q.atlas_packers@[a]) == (p.atlas_size, p.atlas_size),
        skylines_partition(packer_skylines(q.atlas_packers@[a]), p.atlas_size as int),
        0 <= r.0,
        0 < r.2,
        r.0 + r.2 <= p.atlas_size,
        0 <= r.1,
        0 < r.3,
        r.1 + r.3 <= p.atlas_size,
        forall|x: int|
            r.0 <= x < r.0 + r.2 ==> #[trigger] height_at(packer_skylines(p.atlas_packers@[a]), x)
                <= r.1,
        forall|x: int|
            r.0 <= x < r.0 + r.2 ==> #[trigger] height_at(packer_skylines(q.atlas_packers@[a]), x)
                == r.1 + r.3,
        forall|x: int|
            0 <= x < p.atlas_size && !(r.0 <= x < r.0 + r.2) ==> #[trigger] height_at(
                packer_skylines(q.atlas_packers@[a]),
                x,
            ) == height_at(packer_skylines(p.atlas_packers@[a]), x),
    ensures
        q.wf(),
        forall|k: int|
            0 <= k < p.placed_rects@[a].len() ==> rects_disjoint(#[trigger] p.placed_rects@[a][k], r),
{
    let old_sk = packer_skylines(p.atlas_packers@[a]);
    let new_sk = packer_skylines(q.atlas_packers@[a]);
    assert(packer_size(p.atlas_packers@[a]) == (p.atlas_size, p.atlas_size));
    assert forall|k: int| 0 <= k < p.placed_rects@[a].len() implies placed_below(
        #[trigger] p.placed_rects@[a][k],
        p.atlas_size as int,
        old_sk,
    ) by {}
    lemma_new_rect_disjoint(p.placed_rects@[a], old_sk, p.atlas_size as int, r);
    lemma_placed_stay_below(p.placed_rects@[a], old_sk, new_sk, p.atlas_size as int, r);
    assert forall|i: int| 0 <= i < q.atlas_packers@.len() implies {
        &&& #[trigger] packer_size(q.atlas_packers@[i]) == (q.atlas_size, q.atlas_size)
        &&& skylines_partition(packer_skylines(q.atlas_packers@[i]), q.atlas_size as int)
        &&& q.placed_rects@[i].len() == 0 ==> packer_skylines(q.atlas_packers@[i]) == seq![
            (0i32, 0i32, q.atlas_size),
        ]
    } by {
        if i != a {
            assert(q.atlas_packers@[i] == p.atlas_packers@[i]);
            assert(q.placed_rects@[i] == p.placed_rects@[i]);
            assert(packer_size(p.atlas_packers@[i]) == (p.atlas_size, p.atlas_size));
        } else {
            assert(q.placed_rects@[i].len() > 0);
        }
    }
    assert forall|i: int, k: int|
        0 <= i < q.atlas_packers@.len() && 0 <= k < q.placed_rects@[i].len() implies placed_below(
        #[trigger] q.placed_rects@[i][k],
        q.atlas_size as int,
        packer_skylines(q.atlas_packers@[i]),
    ) by {
        if i != a {
            assert(q.atlas_packers@[i] == p.atlas_packers@[i]);
            assert(q.placed_rects@[i] == p.placed_rects@[i]);
        } else {
            assert(q.placed_rects@[i] == p.placed_rects@[a].push(r));
            assert(placed_below(p.placed_rects@[a].push(r)[k], p.atlas_size as int, new_sk));
        }
    }
    assert forall|i: int, k1: int, k2: int|
        0 <= i < q.atlas_packers@.len() && 0 <= k1 < q.placed_rects@[i].len() && 0 <= k2
            < q.placed_rects@[i].len() && k1 != k2 implies rects_disjoint(
        #[trigger] q.placed_rects@[i][k1],
        #[trigger] q.placed_rects@[i][k2],
    ) by {
        if i != a {
            assert(q.placed_rects@[i] == p.placed_rects@[i]);
        } else {
            let n = p.placed_rects@[a].len() as int;
            if k1 < n && k2 < n {
                assert(q.placed_rects@[i][k1] == p.placed_rects@[a][k1]);
                assert(q.placed_rects@[i][k2] == p.placed_rects@[a][k2]);
            } else if k1 < n {
                assert(q.placed_rects@[i][k1] == p.placed_rects@[a][k1]);
                assert(q.placed_rects@[i][k2] == r);
                assert(rects_disjoint(p.placed_rects@[a][k1], r));
            } else {
                assert(q.placed_rects@[i][k2] == p.placed_rects@[a][k2]);
                assert(q.placed_rects@[i][k1] == r);
                assert(rects_disjoint(p.placed_rects@[a][k2], r));
            }
        }
    }
    lemma_wf_from_parts(q);
}

/// A packer stays well formed when a new atlas holding one rectangle is
/// appended.
proof fn lemma_wf_after_new_atlas(
    p: AtlasRectPacker,
    atlas: DensePacker,
    q: AtlasRectPacker,
    r: (i32, i32, i32, i32),
)
    requires
        p.wf(),
        q.atlas_size == p.atlas_size,
        q.atlas_packers@ == p.atlas_packers@.push(atlas),
        q.placed_rects@ == p.placed_rects@.push(seq![r]),
        packer_size(atlas) == (p.atlas_size, p.atlas_size),
        skylines_partition(packer_skylines(atlas), p.atlas_size as int),
        placed_below(r, p.atlas_size as int, packer_skylines(atlas)),
    ensures
        q.wf(),
{
    let a = p.atlas_packers@.len() as int;
    assert forall|i: int| 0 <= i < q.atlas_packers@.len() implies {
        &&& #[trigger] packer_size(q.atlas_packers@[i]) == (q.atlas_size, q.atlas_size)
        &&& skylines_partition(packer_skylines(q.atlas_packers@[i]), q.atlas_size as int)
        &&& q.placed_rects@[i].len() == 0 ==> packer_skylines(q.atlas_packers@[i]) == seq![
            (0i32, 0i32, q.atlas_size),
        ]
    } by {
        if i < a {
            assert(q.atlas_packers@[i] == p.atlas_packers@[i]);
            assert(q.placed_rects@[i] == p.placed_rects@[i]);
            assert(packer_size(p.atlas_packers@[i]) == (p.atlas_size, p.atlas_size));
        } else {
            assert(q.atlas_packers@[i] == atlas);
            assert(q.placed_rects@[i] == seq![r]);
        }
    }
    assert forall|i: int, k: int|
        0 <= i < q.atlas_packers@.len() && 0 <= k < q.placed_rects@[i].len() implies placed_below(
        #[trigger] q.placed_rects@[i][k],
        q.atlas_size as int,
        packer_skylines(q.atlas_packers@[i]),
    ) by {
        if i < a {
            assert(q.atlas_packers@[i] == p.atlas_packers@[i]);
            assert(q.placed_rects@[i] == p.placed_rects@[i]);
        } else {
            assert(q.placed_rects@[i][k] == r);
            assert(q.atlas_packers@[i] == atlas);
        }
    }
    assert forall|i: int, k1: int, k2: int|
        0 <= i < q.atlas_packers@.len() && 0 <= k1 < q.placed_rects@[i].len() && 0 <= k2
            < q.placed_rects@[i].len() && k1 != k2 implies rects_disjoint(
        #[trigger] q.placed_rects@[i][k1],
        #[trigger] q.placed_rects@[i][k2],
    ) by {
        if i < a {
            assert(q.placed_rects@[i] == p.placed_rects@[i]);
        } else {
            assert(q.placed_rects@[i].len() == 1);
        }
    }
    lemma_wf_from_parts(q);
}

/// Well-formedness of a rectangle packer from its parts.
proof fn lemma_wf_from_parts(p: AtlasRectPacker)
    requires
        1 <= p.atlas_size <= max_atlas_size(),
        p.placed_rects@.len() == p.atlas_packers@.len(),
        forall|i: int|
            0 <= i < p.atlas_packers@.len() ==> {
                &&& #[trigger] packer_size(p.atlas_packers@[i]) == (p.atlas_size, p.atlas_size)
                &&& skylines_partition(packer_skylines(p.atlas_packers@[i]), p.atlas_size as int)
                &&& p.placed_rects@[i].len() == 0 ==> packer_skylines(p.atlas_packers@[i])
                    == seq![(0i32, 0i32, p.atlas_size)]
            },
        forall|i: int, k: int|
            0 <= i < p.atlas_packers@.len() && 0 <= k < p.placed_rects@[i].len() ==> placed_below(
                #[trigger] p.placed_rects@[i][k],
                p.atlas_size as int,
                packer_skylines(p.atlas_packers@[i]),
            ),
        forall|i: int, k1: int, k2: int|
            0 <= i < p.atlas_packers@.len() && 0 <= k1 < p.placed_rects@[i].len() && 0 <= k2
                < p.placed_rects@[i].len() && k1 != k2 ==> rects_disjoint(
                #[trigger] p.placed_rects@[i][k1],
                #[trigger] p.placed_rects@[i][k2],
            ),
    ensures
        p.wf(),
{
}

/// A rectangle that lies on or above a skyline over its columns shares no
/// pixel with the rectangles that lie below it.
proof fn lemma_new_rect_disjoint(
    placed: Seq<(i32, i32, i32, i32)>,
    sk: Seq<(i32, i32, i32)>,
    size: int,
    r: (i32, i32, i32, i32),
)
    requires
        forall|k: int| 0 <= k < placed.len() ==> placed_below(#[trigger] placed[k], size, sk),
        0 < r.2,
        forall|x: int| r.0 <= x < r.0 + r.2 ==> #[trigger] height_at(sk, x) <= r.1,
    ensures
        forall|k: int| 0 <= k < placed.len() ==> rects_disjoint(#[trigger] placed[k], r),
{
    assert forall|k: int| 0 <= k < placed.len() implies rects_disjoint(#[trigger] placed[k], r) by {
        let q = placed[k];
        assert(placed_below(q, size, sk));
        if !(q.0 + q.2 <= r.0) && !(r.0 + r.2 <= q.0) {
            let x: int = if q.0 < r.0 {
                r.0 as int
            } else {
                q.0 as int
            };
            assert(q.0 <= x < q.0 + q.2);
            assert(r.0 <= x < r.0 + r.2);
            assert(height_at(sk, x) <= r.1);
            assert(q.1 + q.3 <= height_at(sk, x));
        }
    }
}

/// After packing `r`, the rectangles below the old skyline are below the new
/// one, and so is `r`.
proof fn lemma_placed_stay_below(
    placed: Seq<(i32, i32, i32, i32)>,
    old_sk: Seq<(i32, i32, i32)>,
    new_sk: Seq<(i32, i32, i32)>,
    size: int,
    r: (i32, i32, i32, i32),
)
    requires
        forall|k: int| 0 <= k < placed.len() ==> placed_below(#[trigger] placed[k], size, old_sk),
        0 <= r.0,
        0 < r.2,
        r.0 + r.2 <= size,
        0 <= r.1,
        0 < r.3,
        r.1 + r.3 <= size,
        forall|x: int| r.0 <= x < r.0 + r.2 ==> #[trigger] height_at(old_sk, x) <= r.1,
        forall|x: int| r.0 <= x < r.0 + r.2 ==> #[trigger] height_at(new_sk, x) == r.1 + r.3,
        forall|x: int|
            0 <= x < size && !(r.0 <= x < r.0 + r.2) ==> #[trigger] height_at(new_sk, x) == height_at(
                old_sk,
                x,
            ),
    ensures
        forall|k: int|
            0 <= k < placed.push(r).len() ==> placed_below(#[trigger] placed.push(r)[k], size, new_sk),
{
    assert forall|k: int| 0 <= k < placed.push(r).len() implies placed_below(
        #[trigger] placed.push(r)[k],
        size,
        new_sk,
    ) by {
        if k < placed.len() {
            let q = placed[k];
            assert(placed.push(r)[k] == q);
            assert(placed_below(q, size, old_sk));
            assert forall|x: int| q.0 <= x < q.0 + q.2 implies q.1 + q.3 <= #[trigger] height_at(
                new_sk,
                x,
            ) by {
                assert(q.1 + q.3 <= height_at(old_sk, x));
                if r.0 <= x < r.0 + r.2 {
                    assert(height_at(old_sk, x) <= r.1);
                }
            }
        } else {
            assert(placed.push(r)[k] == r);
        }
    }
}

/// Rectangles packed into one atlas never overlap, so what is written into
/// one never covers another.
pub proof fn law_packed_rects_never_overlap(p: AtlasRectPacker, atlas: int, k1: int, k2: int)
    requires
        p.wf(),
        0 <= atlas < p.placed().len(),
        0 <= k1 < p.placed()[atlas].len(),
        0 <= k2 < p.placed()[atlas].len(),
        k1 != k2,
    ensures
        rects_disjoint(p.placed()[atlas][k1], p.placed()[atlas][k2]),
{
}

/// What pixel `(x, y)` of atlas texture `index` holds before a write, when the
/// writer had `textures` so far: a texture it has not created yet is blank.
pub open spec fn texture_pixel_before(textures: Seq<ImageView>, index: int, x: int, y: int) -> [u8; 4] {
    if index < textures.len() {
        textures[index].pixel(x, y)
    } else {
        transparent_spec()
    }
}

/// The atlas images, created on demand, all `atlas_size` pixels square.
pub struct AtlasTextureWriter {
    pub atlas_size: u32,
    pub atlas_textures: Vec<Image>,
}

impl AtlasTextureWriter {
    pub open spec fn wf(&self) -> bool {
        &&& 1 <= self.atlas_size <= max_atlas_size()
        &&& self.atlas_size * self.atlas_size <= usize::MAX
        &&& forall|i: int|
            0 <= i < self.atlas_textures@.len() ==> {
                &&& (#[trigger] self.atlas_textures@[i]).wf()
                &&& self.atlas_textures@[i]@.width == self.atlas_size
                &&& self.atlas_textures@[i]@.height == self.atlas_size
            }
    }

    /// The atlas images as mathematical images.
    pub open spec fn textures(&self) -> Seq<ImageView> {
        self.atlas_textures@.map_values(|img: Image| img@)
    }

    pub fn new(atlas_size: u32) -> (r: AtlasTextureWriter)
        requires
            1 <= atlas_size <= max_atlas_size(),
            atlas_size * atlas_size <= usize::MAX,
        ensures
            r.wf(),
            r.atlas_size == atlas_size,
            r.atlas_textures@.len() == 0,
    {
        AtlasTextureWriter { atlas_size, atlas_textures: Vec::new() }
    }

    /// Appends blank atlases until one with the given index exists.
    pub fn add_more_atlases_if_necessary(&mut self, atlas_index: usize)
        requires
            old(self).wf(),
        ensures
            final(self).wf(),
            final(self).atlas_size == old(self).atlas_size,
            final(self).atlas_textures@.len() == if atlas_index < old(self).atlas_textures@.len() {
                old(self).atlas_textures@.len() as int
            } else {
                atlas_index + 1
            },
            forall|i: int|
                0 <= i < old(self).atlas_textures@.len() ==> #[trigger] final(self).textures()[i]
                    == old(self).textures()[i],
            forall|i: int, x: int, y: int|
                #![trigger final(self).textures()[i].pixel(x, y)]
                old(self).atlas_textures@.len() <= i < final(self).atlas_textures@.len()
                    && final(self).textures()[i].in_bounds(x, y) ==> final(self).textures()[i].pixel(
                    x,
                    y,
                ) == transparent_spec(),
    {
        while atlas_index >= self.atlas_textures.len()
            invariant
                self.wf(),
                self.atlas_size == old(self).atlas_size,
                old(self).atlas_textures@.len() <= self.atlas_textures@.len(),
                self.atlas_textures@.len() <= if atlas_index < old(self).atlas_textures@.len() {
                    old(self).atlas_textures@.len() as int
                } else {
                    atlas_index + 1
                },
                forall|i: int|
                    0 <= i < old(self).atlas_textures@.len() ==> #[trigger] self.atlas_textures@[i]
                        == old(self).atlas_textures@[i],
                forall|i: int, x: int, y: int|
                    #![trigger self.atlas_textures@[i]@.pixel(x, y)]
                    old(self).atlas_textures@.len() <= i < self.atlas_textures@.len()
                        && self.atlas_textures@[i]@.in_bounds(x, y)
                        ==> self.atlas_textures@[i]@.pixel(x, y) == transparent_spec(),
            decreases atlas_index + 1 - self.atlas_textures@.len(),
        {
            let atlas = Image::new_rgba8(self.atlas_size, self.atlas_size);
            self.atlas_textures.push(atlas);
        }
        proof {
            assert forall|i: int|
                0 <= i < old(self).atlas_textures@.len() implies #[trigger] self.textures()[i]
                == old(self).textures()[i] by {
                assert(self.atlas_textures@[i] == old(self).atlas_textures@[i]);
            }
        }
    }

    /// Copies `image` into the rectangle of `region` of its atlas, creating
    /// that atlas first if it does not exist yet.
    pub fn write_image(&mut self, image: Image, region: &AtlasRegion)
        requires
            old(self).wf(),
            image.wf(),
            image@.width <= i32::MAX,
            image@.height <= i32::MAX,
            region.rect.inside(old(self).atlas_size as int, old(self).atlas_size as int),
            region.rect.width <= image@.width,
            region.rect.height <= image@.height,
        ensures
            final(self).wf(),
            final(self).atlas_size == old(self).atlas_size,
            final(self).atlas_textures@.len() == if region.atlas_index < old(self).atlas_textures@.len() {
                old(self).atlas_textures@.len() as int
            } else {
                region.atlas_index + 1
            },
            forall|i: int|
                0 <= i < final(self).atlas_textures@.len() && i != region.atlas_index
                    ==> #[trigger] final(self).textures()[i] == if i < old(self).atlas_textures@.len() {
                    old(self).textures()[i]
                } else {
                    final(self).textures()[i]
                },
            forall|i: int, x: int, y: int|
                #![trigger final(self).textures()[i].pixel(x, y)]
                old(self).atlas_textures@.len() <= i < final(self).atlas_textures@.len() && i
                    != region.atlas_index && final(self).textures()[i].in_bounds(x, y)
                    ==> final(self).textures()[i].pixel(x, y) == transparent_spec(),
            forall|x: int, y: int|
                #![trigger final(self).textures()[region.atlas_index as int].pixel(x, y)]
                final(self).textures()[region.atlas_index as int].in_bounds(x, y) ==> final(self).textures()[region.atlas_index as int].pixel(x, y) == if region.rect.contains_spec(
                    x,
                    y,
                ) {
                    image@.pixel(x - region.rect.x, y - region.rect.y)
                } else {
                    texture_pixel_before(old(self).textures(), region.atlas_index as int, x, y)
                },
    {
        let atlas_index = region.atlas_index as usize;
        self.add_more_atlases_if_necessary(atlas_index);
        let ghost mid = self.textures();
        let dest_rect = region.rect;
        let source_rect = IRect { x: 0, y: 0, width: dest_rect.width, height: dest_rect.height };
        proof {
            assert(self.atlas_textures@[atlas_index as int].wf());
        }
        Image::copy_region(&image, source_rect, &mut self.atlas_textures[atlas_index], dest_rect);
        proof {
            let t = self.atlas_textures@[atlas_index as int]@;
            assert forall|x: int, y: int|
                #![trigger t.pixel(x, y)]
                t.in_bounds(x, y) implies t.pixel(x, y) == if region.rect.contains_spec(x, y) {
                    image@.pixel(x - region.rect.x, y - region.rect.y)
                } else {
                    texture_pixel_before(old(self).textures(), region.atlas_index as int, x, y)
                } by {
                if !region.rect.contains_spec(x, y) {
                    if (atlas_index as int) < old(self).atlas_textures@.len() {
                        assert(mid[atlas_index as int] == old(self).textures()[atlas_index as int]);
                    } else {
                        assert(mid[atlas_index as int].pixel(x, y) == transparent_spec());
                    }
                }
            }
            assert(self.textures() =~= mid.update(
                atlas_index as int,
                self.atlas_textures@[atlas_index as int]@,
            ));
            assert forall|i: int|
                0 <= i < self.atlas_textures@.len() implies (#[trigger] self.atlas_textures@[i]).wf()
                && self.atlas_textures@[i]@.width == self.atlas_size
                && self.atlas_textures@[i]@.height == self.atlas_size by {
                if i != atlas_index {
                    assert(self.textures()[i] == mid[i]);
                }
            }
        }
    }

    pub fn into_atlas_textures(self) -> (r: Vec<Image>)
        ensures
            r@ == self.atlas_textures@,
    {
        self.atlas_textures
    }
}

/// Packs images into atlas textures: the rectangle packer decides where an
/// image goes, the texture writer copies its pixels there.
pub struct AtlasPacker {
    pub rect_packer: AtlasRectPacker,
    pub texture_writer: AtlasTextureWriter,
    pub default_empty_region: AtlasRegion,
    pub atlas_size: i32,
}

impl AtlasPacker {
    pub open spec fn wf(&self) -> bool {
        &&& self.rect_packer.wf()
        &&& self.texture_writer.wf()
        &&& self.rect_packer.atlas_size == self.atlas_size
        &&& self.texture_writer.atlas_size == self.atlas_size
        &&& self.default_empty_region == (AtlasRegion {
            rect: IRect { x: 0, y: 0, width: 1, height: 1 },
            atlas_index: 0,
        })
    }

    /// A packer with one empty atlas into which a one pixel region is packed
    /// straight away; that region stands for all empty images.
    pub fn new(atlas_size: i32) -> (r: AtlasPacker)
        requires
            1 <= atlas_size <= max_atlas_size(),
            atlas_size * atlas_size <= usize::MAX,
        ensures
            r.wf(),
            r.atlas_size == atlas_size,
            r.rect_packer.placed() == seq![seq![(0i32, 0i32, 1i32, 1i32)]],
            r.texture_writer.atlas_textures@.len() == 0,
    {
        let mut rect_packer = AtlasRectPacker::new(atlas_size);
        let ghost before = rect_packer.placed();
        let ghost before_packers = rect_packer.atlas_packers@;
        let default_empty_region = rect_packer.pack_image(1, 1);
        proof {
            if default_empty_region.atlas_index > 0 {
                assert(0 <= 0 < default_empty_region.atlas_index);
                assert(!packer_accepts(before_packers[0], 1i32, 1i32));
                assert(before[0].len() > 0);
            }
            assert(default_empty_region.atlas_index == 0);
            assert(before[0] =~= Seq::<(i32, i32, i32, i32)>::empty());
            assert(rect_packer.placed()[0] =~= seq![(0i32, 0i32, 1i32, 1i32)]);
            assert(rect_packer.placed() =~= seq![seq![(0i32, 0i32, 1i32, 1i32)]]);
        }
        AtlasPacker {
            rect_packer,
            texture_writer: AtlasTextureWriter::new(atlas_size as u32),
            default_empty_region,
            atlas_size,
        }
    }

    pub fn default_empty_region(&self) -> (r: AtlasRegion)
        ensures
            r == self.default_empty_region,
    {
        self.default_empty_region
    }

    /// The packer has placed the rectangle of `region` in its atlas.
    pub open spec fn records(&self, region: AtlasRegion) -> bool {
        &&& region.atlas_index < self.rect_packer.placed().len()
        &&& self.rect_packer.placed()[region.atlas_index as int].contains(rect_tuple(region.rect))
    }

    /// The atlas texture of `region` exists and shows `img` over the region.
    pub open spec fn holds_image_at(&self, region: AtlasRegion, img: ImageView) -> bool {
        &&& region.atlas_index < self.texture_writer.atlas_textures@.len()
        &&& forall|x: int, y: int|
            region.rect.contains_spec(x, y) ==> #[trigger] self.texture_writer.textures()[region.atlas_index as int].pixel(x, y)
                == img.pixel(x - region.rect.x, y - region.rect.y)
    }

    /// Finds room for `image` in the atlases and copies it there. The region
    /// shares no pixel with the regions packed before, so every image packed
    /// before is still shown where it was packed.
    pub fn pack_image(&mut self, image: Image) -> (region: AtlasRegion)
        requires
            old(self).wf(),
            image.wf(),
            0 < image@.width <= old(self).atlas_size,
            0 < image@.height <= old(self).atlas_size,
            old(self).rect_packer.atlas_packers@.len() < u32::MAX,
        ensures
            final(self).wf(),
            final(self).atlas_size == old(self).atlas_size,
            final(self).default_empty_region == old(self).default_empty_region,
            final(self).rect_packer.atlas_packers@.len() <= old(self).rect_packer.atlas_packers@.len()
                + 1,
            region.rect == (IRect {
                x: region.rect.x,
                y: region.rect.y,
                width: image@.width as i32,
                height: image@.height as i32,
            }),
            region.rect.inside(old(self).atlas_size as int, old(self).atlas_size as int),
            region.atlas_index <= old(self).rect_packer.atlas_packers@.len(),
            forall|j: int|
                0 <= j < region.atlas_index ==> !packer_accepts(
                    #[trigger] old(self).rect_packer.atlas_packers@[j],
                    image@.width as i32,
                    image@.height as i32,
                ),
            region.atlas_index < old(self).rect_packer.atlas_packers@.len() ==> packer_accepts(
                old(self).rect_packer.atlas_packers@[region.atlas_index as int],
                image@.width as i32,
                image@.height as i32,
            ),
            region.atlas_index == old(self).rect_packer.atlas_packers@.len() ==> region.rect.x == 0
                && region.rect.y == 0,
            forall|x: int, y: int|
                #![trigger final(self).texture_writer.textures()[region.atlas_index as int].pixel(x, y)]
                final(self).texture_writer.textures()[region.atlas_index as int].in_bounds(x, y)
                    ==> final(self).texture_writer.textures()[region.atlas_index as int].pixel(x, y)
                    == if region.rect.contains_spec(x, y) {
                    image@.pixel(x - region.rect.x, y - region.rect.y)
                } else {
                    texture_pixel_before(
                        old(self).texture_writer.textures(),
                        region.atlas_index as int,
                        x,
                        y,
                    )
                },
            forall|i: int|
                0 <= i < old(self).texture_writer.atlas_textures@.len() && i != region.atlas_index
                    ==> #[trigger] final(self).texture_writer.textures()[i] == old(self).texture_writer.textures()[i],
            final(self).texture_writer.atlas_textures@.len() == if region.atlas_index
                < old(self).texture_writer.atlas_textures@.len() {
                old(self).texture_writer.atlas_textures@.len() as int
            } else {
                region.atlas_index + 1
            },
            final(self).rect_packer.placed() == with_placed(
                old(self).rect_packer.placed(),
                region.atlas_index as int,
                rect_tuple(region.rect),
            ),
            region.atlas_index < old(self).rect_packer.placed().len() ==> forall|k: int|
                0 <= k < old(self).rect_packer.placed()[region.atlas_index as int].len()
                    ==> rects_disjoint(
                    #[trigger] old(self).rect_packer.placed()[region.atlas_index as int][k],
                    rect_tuple(region.rect),
                ),
            final(self).records(region),
            final(self).holds_image_at(region, image@),
            forall|g: AtlasRegion| #[trigger] old(self).records(g) ==> final(self).records(g),
            forall|g: AtlasRegion, img: ImageView|
                old(self).records(g) && #[trigger] old(self).holds_image_at(g, img)
                    ==> final(self).holds_image_at(g, img),
    {
        let ghost old_packer = *self;
        let width = image.width() as i32;
        let height = image.height() as i32;
        let region = self.rect_packer.pack_image(width, height);
        self.texture_writer.write_image(image, &region);
        proof {
            lemma_pack_keeps_images(old_packer, *self, region, image@);
        }
        region
    }

    pub fn into_atlas_textures(self) -> (r: Vec<Image>)
        ensures
            r@ == self.texture_writer.atlas_textures@,
    {
        self.texture_writer.into_atlas_textures()
    }
}

/// What packing `image` into `region` leaves of the earlier packed images.
proof fn lemma_pack_keeps_images(p: AtlasPacker, q: AtlasPacker, region: AtlasRegion, image: ImageView)
    requires
        p.wf(),
        q.wf(),
        q.atlas_size == p.atlas_size,
        region.rect.inside(p.atlas_size as int, p.atlas_size as int),
        region.rect.width == image.width,
        region.rect.height == image.height,
        region.atlas_index <= p.rect_packer.atlas_packers@.len(),
        region.atlas_index < p.rect_packer.atlas_packers@.len() ==> {
            &&& forall|k: int|
                0 <= k < p.rect_packer.placed()[region.atlas_index as int].len() ==> rects_disjoint(
                    #[trigger] p.rect_packer.placed()[region.atlas_index as int][k],
                    rect_tuple(region.rect),
                )
            &&& q.rect_packer.placed() == p.rect_packer.placed().update(
                region.atlas_index as int,
                p.rect_packer.placed()[region.atlas_index as int].push(rect_tuple(region.rect)),
            )
        },
        region.atlas_index == p.rect_packer.atlas_packers@.len() ==> q.rect_packer.placed()
            == p.rect_packer.placed().push(seq![rect_tuple(region.rect)]),
        q.texture_writer.atlas_textures@.len() == if region.atlas_index
            < p.texture_writer.atlas_textures@.len() {
            p.texture_writer.atlas_textures@.len() as int
        } else {
            region.atlas_index + 1
        },
        forall|i: int|
            0 <= i < q.texture_writer.atlas_textures@.len() && i != region.atlas_index ==> #[trigger] q.texture_writer.textures()[i]
                == if i < p.texture_writer.atlas_textures@.len() {
                p.texture_writer.textures()[i]
            } else {
                q.texture_writer.textures()[i]
            },
        forall|x: int, y: int|
            #![trigger q.texture_writer.textures()[region.atlas_index as int].pixel(x, y)]
            q.texture_writer.textures()[region.atlas_index as int].in_bounds(x, y)
                ==> q.texture_writer.textures()[region.atlas_index as int].pixel(x, y)
                == if region.rect.contains_spec(x, y) {
                image.pixel(x - region.rect.x, y - region.rect.y)
            } else {
                texture_pixel_before(p.texture_writer.textures(), region.atlas_index as int, x, y)
            },
    ensures
        q.rect_packer.placed() == with_placed(
            p.rect_packer.placed(),
            region.atlas_index as int,
            rect_tuple(region.rect),
        ),
        q.records(region),
        q.holds_image_at(region, image),
        forall|g: AtlasRegion| #[trigger] p.records(g) ==> q.records(g),
        forall|g: AtlasRegion, img: ImageView|
            p.records(g) && #[trigger] p.holds_image_at(g, img) ==> q.holds_image_at(g, img),
{
    let b = region.atlas_index as int;
    let t = rect_tuple(region.rect);
    let pp = p.rect_packer.placed();
    let qp = q.rect_packer.placed();
    assert(qp.len() > b);
    assert(qp[b].last() == t);
    assert(qp[b][qp[b].len() - 1] == t);
    assert(q.records(region));
    let size = p.atlas_size as int;
    assert(q.texture_writer.atlas_textures@[b].wf());
    assert(q.texture_writer.textures()[b] == q.texture_writer.atlas_textures@[b]@);
    assert forall|x: int, y: int| region.rect.contains_spec(x, y) implies #[trigger] q.texture_writer.textures()[b].pixel(
        x,
        y,
    ) == image.pixel(x - region.rect.x, y - region.rect.y) by {
        assert(q.texture_writer.textures()[b].in_bounds(x, y));
    }
    assert forall|g: AtlasRegion| #[trigger] p.records(g) implies q.records(g) by {
        let a = g.atlas_index as int;
        let k = choose|k: int| 0 <= k < pp[a].len() && pp[a][k] == rect_tuple(g.rect);
        if a == b {
            assert(qp[a] == pp[a].push(t));
            assert(qp[a][k] == rect_tuple(g.rect));
        } else {
            assert(qp[a] == pp[a]);
        }
    }
    assert forall|g: AtlasRegion, img: ImageView|
        p.records(g) && #[trigger] p.holds_image_at(g, img) implies q.holds_image_at(g, img) by {
        let a = g.atlas_index as int;
        let k = choose|k: int| 0 <= k < pp[a].len() && pp[a][k] == rect_tuple(g.rect);
        assert(p.rect_packer.placed_rects@[a][k] == rect_tuple(g.rect));
        assert(placed_below(rect_tuple(g.rect), size, packer_skylines(p.rect_packer.atlas_packers@[a])));
        if a != b {
            assert(q.texture_writer.textures()[a] == p.texture_writer.textures()[a]);
        } else {
            assert(rects_disjoint(pp[a][k], t));
            assert forall|x: int, y: int| g.rect.contains_spec(x, y) implies #[trigger] q.texture_writer.textures()[a].pixel(
                x,
                y,
            ) == img.pixel(x - g.rect.x, y - g.rect.y) by {
                assert(p.texture_writer.atlas_textures@[a].wf());
                assert(p.texture_writer.textures()[a] == p.texture_writer.atlas_textures@[a]@);
                assert(q.texture_writer.textures()[a].in_bounds(x, y));
                assert(!region.rect.contains_spec(x, y));
                assert(p.texture_writer.textures()[a].pixel(x, y) == img.pixel(
                    x - g.rect.x,
                    y - g.rect.y,
                ));
            }
        }
    }
}

} // verus!
