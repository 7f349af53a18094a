//! RGBA images with row-major pixel storage, and the drawing helpers the
//! atlas and font packers use on them.
use vstd::prelude::*;

verus! {

/// An RGBA pixel value.
pub type Pixel = [u8; 4];

/// Integer rectangle given by its top-left corner and its extent.
#[derive(Clone, Copy, Debug, PartialEq, Eq)]
pub struct IRect {
    pub x: i32,
    pub y: i32,
    pub width: i32,
    pub height: i32,
}

impl IRect {
    pub fn new(x: i32, y: i32, width: i32, height: i32) -> (r: IRect)
        ensures
            r == (IRect { x, y, width, height }),
    {
        IRect { x, y, width, height }
    }

    /// The rectangle holds pixel `(px, py)`.
    pub open spec fn contains_spec(self, px: int, py: int) -> bool {
        self.x <= px < self.x + self.width && self.y <= py < self.y + self.height
    }

    /// The rectangle lies inside an image of the given size.
    pub open spec fn inside(self, width: int, height: int) -> bool {
        &&& 0 <= self.x
        &&& 0 <= self.y
        &&& self.x + self.width <= width
        &&& self.y + self.height <= height
    }

    /// Pixel `(px, py)` lies on the one pixel wide outline of the rectangle.
    pub open spec fn on_border(self, px: int, py: int) -> bool {
        &&& self.contains_spec(px, py)
        &&& (px == self.x || py == self.y || px == self.x + self.width - 1 || py == self.y
            + self.height - 1)
    }
}

/// Mathematical model of an image: its size and its pixels in row-major order.
pub struct ImageView {
    pub width: nat,
    pub height: nat,
    pub pixels: Seq<Pixel>,
}

impl ImageView {
    pub open spec fn in_bounds(self, x: int, y: int) -> bool {
        0 <= x < self.width && 0 <= y < self.height
    }

    /// The pixel at column `x` and row `y`.
    pub open spec fn pixel(self, x: int, y: int) -> Pixel {
        self.pixels[y * self.width + x]
    }

    pub open spec fn wf(self) -> bool {
        self.pixels.len() == self.width * self.height
    }
}

/// Row-major index arithmetic of an image `w` pixels wide.
pub proof fn lemma_index_bounds(w: int, h: int, x: int, y: int)
    requires
        0 <= x < w,
        0 <= y < h,
    ensures
        0 <= y * w + x < w * h,
{
    assert(0 <= y * w) by (nonlinear_arith)
        requires
            0 <= y,
            0 <= w,
    ;
    assert(y * w + x < w * h) by (nonlinear_arith)
        requires
            0 <= x < w,
            0 <= y < h,
    ;
}

/// Distinct pixels of an image `w` pixels wide have distinct row-major indices.
pub proof fn lemma_index_injective(w: int, x1: int, y1: int, x2: int, y2: int)
    requires
        0 <= x1 < w,
        0 <= x2 < w,
        0 <= y1,
        0 <= y2,
        y1 * w + x1 == y2 * w + x2,
    ensures
        x1 == x2,
        y1 == y2,
{
    if y1 < y2 {
        assert(y1 * w + w <= y2 * w) by (nonlinear_arith)
            requires
                y1 < y2,
                0 <= w,
        ;
    } else if y2 < y1 {
        assert(y2 * w + w <= y1 * w) by (nonlinear_arith)
            requires
                y2 < y1,
                0 <= w,
        ;
    }
}

/// An RGBA image of `width` x `height` pixels.
#[derive(Debug)]
pub struct Image {
    width: u32,
    height: u32,
    pixels: Vec<Pixel>,
}

impl View for Image {
    type V = ImageView;

    closed spec fn view(&self) -> ImageView {
        ImageView { width: self.width as nat, height: self.height as nat, pixels: self.pixels@ }
    }
}

/// The pixel that a fresh image is filled with: fully transparent black.
pub open spec fn transparent_spec() -> Pixel {
    [0u8, 0u8, 0u8, 0u8]
}

pub fn pixels_equal(a: Pixel, b: Pixel) -> (r: bool)
    ensures
        r == (a == b),
{
    let r = a[0] == b[0] && a[1] == b[1] && a[2] == b[2] && a[3] == b[3];
    proof {
        if r {
            assert(a@ =~= b@);
            assert(a == b);
        }
    }
    r
}

impl Image {
    pub closed spec fn wf(&self) -> bool {
        self@.wf()
    }

    /// A transparent image of the given size.
    pub fn new_rgba8(width: u32, height: u32) -> (r: Image)
        requires
            width * height <= usize::MAX,
        ensures
            r.wf(),
            r@.width == width,
            r@.height == height,
            forall|x: int, y: int| #![trigger r@.pixel(x, y)] r@.in_bounds(x, y) ==> r@.pixel(x, y) == transparent_spec(),
    {
        let total: usize = (width as usize) * (height as usize);
        let mut pixels: Vec<Pixel> = Vec::new();
        let mut i: usize = 0;
        while i < total
            invariant
                i <= total,
                pixels@.len() == i,
                forall|k: int| 0 <= k < i ==> pixels@[k] == transparent_spec(),
            decreases total - i,
        {
            pixels.push([0u8, 0u8, 0u8, 0u8]);
            i = i + 1;
        }
        let r = Image { width, height, pixels };
        proof {
            assert forall|x: int, y: int| #![trigger r@.pixel(x, y)] r@.in_bounds(x, y) implies r@.pixel(x, y)
                == transparent_spec() by {
                lemma_index_bounds(width as int, height as int, x, y);
            }
        }
        r
    }

    /// An image of the given size holding the given row-major pixels.
    pub fn from_pixels(width: u32, height: u32, pixels: Vec<Pixel>) -> (r: Option<Image>)
        ensures
            r is Some <==> pixels@.len() == width * height,
            r matches Some(img) ==> img.wf() && img@ == (ImageView {
                width: width as nat,
                height: height as nat,
                pixels: pixels@,
            }),
    {
        assert((width as int) * (height as int) <= 0xffff_ffff * 0xffff_ffff) by (nonlinear_arith)
            requires
                width <= 0xffff_ffff,
                height <= 0xffff_ffff,
        ;
        let total: u64 = (width as u64) * (height as u64);
        if (pixels.len() as u64) == total {
            Some(Image { width, height, pixels })
        } else {
            None
        }
    }

    /// The row-major pixels of the image.
    pub fn into_pixels(self) -> (r: Vec<Pixel>)
        ensures
            r@ == self@.pixels,
    {
        self.pixels
    }

    pub fn width(&self) -> (r: u32)
        ensures
            r == self@.width,
    {
        self.width
    }

    pub fn height(&self) -> (r: u32)
        ensures
            r == self@.height,
    {
        self.height
    }

    pub fn get_pixel(&self, x: u32, y: u32) -> (r: Pixel)
        requires
            self.wf(),
            self@.in_bounds(x as int, y as int),
        ensures
            r == self@.pixel(x as int, y as int),
    {
        let num_pixels = self.pixels.len();
        proof {
            lemma_index_bounds(self.width as int, self.height as int, x as int, y as int);
            assert(num_pixels == self.width as int * self.height as int);
            assert((y as int) * (self.width as int) + (x as int) < num_pixels);
        }
        let idx: usize = (y as usize) * (self.width as usize) + (x as usize);
        self.pixels[idx]
    }

    pub fn put_pixel(&mut self, x: u32, y: u32, color: Pixel)
        requires
            old(self).wf(),
            old(self)@.in_bounds(x as int, y as int),
        ensures
            final(self).wf(),
            final(self)@.width == old(self)@.width,
            final(self)@.height == old(self)@.height,
            forall|i: int, j: int|
                #![trigger final(self)@.pixel(i, j)]
                final(self)@.in_bounds(i, j) ==> final(self)@.pixel(i, j) == if i == x && j == y {
                    color
                } else {
                    old(self)@.pixel(i, j)
                },
    {
        let num_pixels = self.pixels.len();
        proof {
            lemma_index_bounds(self.width as int, self.height as int, x as int, y as int);
            assert(num_pixels == self.width as int * self.height as int);
            assert((y as int) * (self.width as int) + (x as int) < num_pixels);
        }
        let idx: usize = (y as usize) * (self.width as usize) + (x as usize);
        self.pixels.set(idx, color);
        proof {
            let w = self.width as int;
            let h = self.height as int;
            assert forall|i: int, j: int| #![trigger self@.pixel(i, j)] self@.in_bounds(i, j) implies self@.pixel(i, j)
                == if i == x && j == y {
                color
            } else {
                old(self)@.pixel(i, j)
            } by {
                lemma_index_bounds(w, h, i, j);
                if j * w + i == y * w + x {
                    lemma_index_injective(w, i, j, x as int, y as int);
                }
            }
        }
    }
}


/// Row-major visiting order: pixel `(x1, y1)` comes before pixel `(x2, y2)`.
pub open spec fn visited_before(x1: int, y1: int, x2: int, y2: int) -> bool {
    y1 < y2 || (y1 == y2 && x1 < x2)
}

/// Pixel `(gx, gy)` of `img` is a glyph pixel that lies inside the image.
pub open spec fn is_glyph_at(img: ImageView, glyph: Pixel, gx: int, gy: int) -> bool {
    img.in_bounds(gx, gy) && img.pixel(gx, gy) == glyph
}

/// A glyph pixel among those visited before `(vx, vy)` has `(px, py)` as one of
/// its border neighbours: left, right, above, below, or diagonally below-right.
pub open spec fn border_neighbour_of_glyph_before(
    img: ImageView,
    glyph: Pixel,
    px: int,
    py: int,
    vx: int,
    vy: int,
) -> bool {
    ||| (is_glyph_at(img, glyph, px + 1, py) && visited_before(px + 1, py, vx, vy))
    ||| (is_glyph_at(img, glyph, px - 1, py) && visited_before(px - 1, py, vx, vy))
    ||| (is_glyph_at(img, glyph, px, py + 1) && visited_before(px, py + 1, vx, vy))
    ||| (is_glyph_at(img, glyph, px, py - 1) && visited_before(px, py - 1, vx, vy))
    ||| (is_glyph_at(img, glyph, px - 1, py - 1) && visited_before(px - 1, py - 1, vx, vy))
}

/// `(px, py)` is a border neighbour of some glyph pixel of `img`.
pub open spec fn border_neighbour_of_glyph(img: ImageView, glyph: Pixel, px: int, py: int) -> bool {
    ||| is_glyph_at(img, glyph, px + 1, py)
    ||| is_glyph_at(img, glyph, px - 1, py)
    ||| is_glyph_at(img, glyph, px, py + 1)
    ||| is_glyph_at(img, glyph, px, py - 1)
    ||| is_glyph_at(img, glyph, px - 1, py - 1)
}

/// Every glyph pixel has all its border neighbours inside the image.
pub open spec fn glyph_pixels_padded(img: ImageView, glyph: Pixel) -> bool {
    forall|x: int, y: int|
        #![trigger img.pixel(x, y)]
        img.in_bounds(x, y) && img.pixel(x, y) == glyph ==> 1 <= x && x + 1 < img.width && 1 <= y
            && y + 1 < img.height
}

impl Image {
    /// Fills every pixel of `rect` with `fill_color`.
    pub fn fill_rect(&mut self, rect: IRect, fill_color: Pixel)
        requires
            old(self).wf(),
            old(self)@.width <= i32::MAX,
            old(self)@.height <= i32::MAX,
            rect.inside(old(self)@.width as int, old(self)@.height as int),
        ensures
            final(self).wf(),
            final(self)@.width == old(self)@.width,
            final(self)@.height == old(self)@.height,
            forall|i: int, j: int|
                #![trigger final(self)@.pixel(i, j)]
                final(self)@.in_bounds(i, j) ==> final(self)@.pixel(i, j) == if rect.contains_spec(
                    i,
                    j,
                ) {
                    fill_color
                } else {
                    old(self)@.pixel(i, j)
                },
    {
        let ghost old_img = self@;
        let y_end: i32 = rect.y + rect.height;
        let x_end: i32 = rect.x + rect.width;
        let mut y: i32 = rect.y;
        while y < y_end
            invariant
                self.wf(),
                self@.width == old_img.width,
                self@.height == old_img.height,
                rect.inside(old_img.width as int, old_img.height as int),
                y_end == rect.y + rect.height,
                x_end == rect.x + rect.width,
                rect.y <= y,
                forall|i: int, j: int|
                    #![trigger self@.pixel(i, j)]
                    self@.in_bounds(i, j) ==> self@.pixel(i, j) == if rect.contains_spec(i, j)
                        && j < y {
                        fill_color
                    } else {
                        old_img.pixel(i, j)
                    },
            decreases y_end - y,
        {
            let mut x: i32 = rect.x;
            while x < x_end
                invariant
                    self.wf(),
                    self@.width == old_img.width,
                    self@.height == old_img.height,
                    rect.inside(old_img.width as int, old_img.height as int),
                    y_end == rect.y + rect.height,
                    x_end == rect.x + rect.width,
                    rect.y <= y < y_end,
                    rect.x <= x,
                    forall|i: int, j: int|
                        #![trigger self@.pixel(i, j)]
                        self@.in_bounds(i, j) ==> self@.pixel(i, j) == if rect.contains_spec(i, j)
                            && (j < y || (j == y && i < x)) {
                            fill_color
                        } else {
                            old_img.pixel(i, j)
                        },
                decreases x_end - x,
            {
                self.put_pixel(x as u32, y as u32, fill_color);
                x = x + 1;
            }
            y = y + 1;
        }
    }

    /// Sets every pixel of the image to `fill_color`.
    pub fn clear(&mut self, fill_color: Pixel)
        requires
            old(self).wf(),
            old(self)@.width <= i32::MAX,
            old(self)@.height <= i32::MAX,
        ensures
            final(self).wf(),
            final(self)@.width == old(self)@.width,
            final(self)@.height == old(self)@.height,
            forall|i: int, j: int|
                #![trigger final(self)@.pixel(i, j)]
                final(self)@.in_bounds(i, j) ==> final(self)@.pixel(i, j) == fill_color,
    {
        let rect = IRect { x: 0, y: 0, width: self.width as i32, height: self.height as i32 };
        self.fill_rect(rect, fill_color);
    }

    /// Draws the one pixel wide outline of `rect` in `border_color`.
    pub fn draw_rect(&mut self, rect: IRect, border_color: Pixel)
        requires
            old(self).wf(),
            old(self)@.width <= i32::MAX,
            old(self)@.height <= i32::MAX,
            rect.inside(old(self)@.width as int, old(self)@.height as int),
        ensures
            final(self).wf(),
            final(self)@.width == old(self)@.width,
            final(self)@.height == old(self)@.height,
            forall|i: int, j: int|
                #![trigger final(self)@.pixel(i, j)]
                final(self)@.in_bounds(i, j) ==> final(self)@.pixel(i, j) == if rect.on_border(
                    i,
                    j,
                ) {
                    border_color
                } else {
                    old(self)@.pixel(i, j)
                },
    {
        let ghost old_img = self@;
        let y_end: i32 = rect.y + rect.height;
        let x_end: i32 = rect.x + rect.width;
        let mut y: i32 = rect.y;
        while y < y_end
            invariant
                self.wf(),
                self@.width == old_img.width,
                self@.height == old_img.height,
                rect.inside(old_img.width as int, old_img.height as int),
                y_end == rect.y + rect.height,
                x_end == rect.x + rect.width,
                rect.y <= y,
                forall|i: int, j: int|
                    #![trigger self@.pixel(i, j)]
                    self@.in_bounds(i, j) ==> self@.pixel(i, j) == if rect.on_border(i, j) && j
                        < y {
                        border_color
                    } else {
                        old_img.pixel(i, j)
                    },
            decreases y_end - y,
        {
            let mut x: i32 = rect.x;
            while x < x_end
                invariant
                    self.wf(),
                    self@.width == old_img.width,
                    self@.height == old_img.height,
                    rect.inside(old_img.width as int, old_img.height as int),
                    y_end == rect.y + rect.height,
                    x_end == rect.x + rect.width,
                    rect.y <= y < y_end,
                    rect.x <= x,
                    forall|i: int, j: int|
                        #![trigger self@.pixel(i, j)]
                        self@.in_bounds(i, j) ==> self@.pixel(i, j) == if rect.on_border(i, j) && (j
                            < y || (j == y && i < x)) {
                            border_color
                        } else {
                            old_img.pixel(i, j)
                        },
                decreases x_end - x,
            {
                if x == rect.x || y == rect.y || x == x_end - 1 || y == y_end - 1 {
                    self.put_pixel(x as u32, y as u32, border_color);
                }
                x = x + 1;
            }
            y = y + 1;
        }
    }

    /// Copies the pixels of `source_region` of `source_image` into
    /// `dest_region` of `dest_image`; both regions have the same size.
    pub fn copy_region(
        source_image: &Image,
        source_region: IRect,
        dest_image: &mut Image,
        dest_region: IRect,
    )
        requires
            source_image.wf(),
            old(dest_image).wf(),
            source_image@.width <= i32::MAX,
            source_image@.height <= i32::MAX,
            old(dest_image)@.width <= i32::MAX,
            old(dest_image)@.height <= i32::MAX,
            source_region.width == dest_region.width,
            source_region.height == dest_region.height,
            source_region.inside(source_image@.width as int, source_image@.height as int),
            dest_region.inside(old(dest_image)@.width as int, old(dest_image)@.height as int),
        ensures
            final(dest_image).wf(),
            final(dest_image)@.width == old(dest_image)@.width,
            final(dest_image)@.height == old(dest_image)@.height,
            forall|i: int, j: int|
                #![trigger final(dest_image)@.pixel(i, j)]
                final(dest_image)@.in_bounds(i, j) ==> final(dest_image)@.pixel(i, j) == if dest_region.contains_spec(
                    i,
                    j,
                ) {
                    source_image@.pixel(
                        i - dest_region.x + source_region.x,
                        j - dest_region.y + source_region.y,
                    )
                } else {
                    old(dest_image)@.pixel(i, j)
                },
    {
        let ghost old_img = dest_image@;
        let mut y: i32 = 0;
        while y < source_region.height
            invariant
                source_image.wf(),
                dest_image.wf(),
                source_image@.width <= i32::MAX,
                source_image@.height <= i32::MAX,
                old_img.width <= i32::MAX,
                old_img.height <= i32::MAX,
                dest_image@.width == old_img.width,
                dest_image@.height == old_img.height,
                source_region.width == dest_region.width,
                source_region.height == dest_region.height,
                source_region.inside(source_image@.width as int, source_image@.height as int),
                dest_region.inside(old_img.width as int, old_img.height as int),
                0 <= y,
                forall|i: int, j: int|
                    #![trigger dest_image@.pixel(i, j)]
                    dest_image@.in_bounds(i, j) ==> dest_image@.pixel(i, j) == if dest_region.contains_spec(i, j)
                        && j - dest_region.y < y {
                        source_image@.pixel(
                            i - dest_region.x + source_region.x,
                            j - dest_region.y + source_region.y,
                        )
                    } else {
                        old_img.pixel(i, j)
                    },
            decreases source_region.height - y,
        {
            let mut x: i32 = 0;
            while x < source_region.width
                invariant
                    source_image.wf(),
                    dest_image.wf(),
                    source_image@.width <= i32::MAX,
                    source_image@.height <= i32::MAX,
                    old_img.width <= i32::MAX,
                    old_img.height <= i32::MAX,
                    dest_image@.width == old_img.width,
                    dest_image@.height == old_img.height,
                    source_region.width == dest_region.width,
                    source_region.height == dest_region.height,
                    source_region.inside(source_image@.width as int, source_image@.height as int),
                    dest_region.inside(old_img.width as int, old_img.height as int),
                    0 <= y < source_region.height,
                    0 <= x,
                    forall|i: int, j: int|
                        #![trigger dest_image@.pixel(i, j)]
                        dest_image@.in_bounds(i, j) ==> dest_image@.pixel(i, j) == if dest_region.contains_spec(i, j)
                            && (j - dest_region.y < y || (j - dest_region.y == y && i
                            - dest_region.x < x)) {
                            source_image@.pixel(
                                i - dest_region.x + source_region.x,
                                j - dest_region.y + source_region.y,
                            )
                        } else {
                            old_img.pixel(i, j)
                        },
                decreases source_region.width - x,
            {
                let source_color = source_image.get_pixel(
                    (x + source_region.x) as u32,
                    (y + source_region.y) as u32,
                );
                dest_image.put_pixel(
                    (x + dest_region.x) as u32,
                    (y + dest_region.y) as u32,
                    source_color,
                );
                x = x + 1;
            }
            y = y + 1;
        }
    }
}

} // verus!
