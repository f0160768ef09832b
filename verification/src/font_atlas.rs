use vstd::prelude::*;

use crate::gray_image::{
    gray_as_raw, gray_from_raw, gray_get_pixel, gray_height, gray_put_pixel, gray_samples,
    gray_width, sample_index, GrayBuffer,
};

verus! {

/// Where a character lies in a font texture atlas: the top left corner of its bitmap and its size,
/// in pixels.
#[derive(Copy, Clone, Debug, PartialEq, Eq)]
pub struct CharParams {
    pub x: u32,
    pub y: u32,
    pub w: u32,
    pub h: u32,
}

/// The bitmap of one rasterized character: `width * height` coverage values, row by row.
pub struct GlyphBitmap {
    pub width: u32,
    pub height: u32,
    pub data: Vec<u8>,
}

impl GlyphBitmap {
    /// The bitmap holds a value for each of its pixels, and a character of that size with its
    /// border can be measured in `u32`.
    pub open spec fn well_sized(&self) -> bool {
        &&& self.data@.len() >= self.width as int * self.height as int
        &&& self.width + 2 * FontTextureImage::OFFSET <= u32::MAX
        &&& self.height + 2 * FontTextureImage::OFFSET <= u32::MAX
    }

    /// Whether the bitmap is well sized.
    pub fn is_well_sized(&self) -> (r: bool)
        ensures
            r == self.well_sized(),
    {
        let w = self.width as u64;
        let h = self.height as u64;
        assert(w * h <= u32::MAX as int * u32::MAX as int) by (nonlinear_arith)
            requires
                w <= u32::MAX,
                h <= u32::MAX,
        ;
        (self.data.len() as u64) >= w * h && self.width <= u32::MAX - 2 && self.height <= u32::MAX
            - 2
    }

    /// The coverage value of pixel `(i, j)` of the bitmap.
    pub open spec fn value(&self, i: int, j: int) -> u8 {
        self.data@[j * self.width + i]
    }
}

/// `y * w + x` stays inside a `w` by `h` grid for `x < w`, `y < h`.
pub proof fn lemma_grid_index_bound(w: int, h: int, x: int, y: int)
    requires
        0 <= x < w,
        0 <= y < h,
    ensures
        0 <= y * w + x < w * h,
{
    assert(0 <= y * w) by (nonlinear_arith)
        requires
            0 <= y,
            0 <= w,
    ;
    assert(y * w + x < w * h) by (nonlinear_arith)
        requires
            0 <= x < w,
            0 <= y < h,
    ;
}

/// Two pixels of a grid `w` wide share a sample index only if they are the same pixel.
pub proof fn lemma_grid_index_injective(w: int, x1: int, y1: int, x2: int, y2: int)
    requires
        0 <= x1 < w,
        0 <= x2 < w,
        0 <= y1,
        0 <= y2,
        y1 * w + x1 == y2 * w + x2,
    ensures
        x1 == x2,
        y1 == y2,
{
    if y1 < y2 {
        assert(y1 * w + x1 < y2 * w + x2) by (nonlinear_arith)
            requires
                0 <= x1 < w,
                0 <= x2,
                y1 < y2,
        ;
    } else if y2 < y1 {
        assert(y2 * w + x2 < y1 * w + x1) by (nonlinear_arith)
            requires
                0 <= x2 < w,
                0 <= x1,
                y2 < y1,
        ;
    }
}

/// A smaller grid holds fewer pixels.
pub proof fn lemma_grid_area_monotone(w1: int, h1: int, w2: int, h2: int)
    requires
        0 <= w1 <= w2,
        0 <= h1 <= h2,
    ensures
        w1 * h1 <= w2 * h2,
{
    assert(w1 * h1 <= w2 * h2) by (nonlinear_arith)
        requires
            0 <= w1 <= w2,
            0 <= h1 <= h2,
    ;
}

/// A grey image into which characters are packed line by line, left to right, each with a
/// border of `OFFSET` pixels on every side.
pub struct FontTextureImage {
    width: u32,
    height: u32,
    image: GrayBuffer,
    pos_x: u32,
    pos_y: u32,
    line_height: u32,
}

impl FontTextureImage {
    pub const OFFSET: u32 = 1;

    /// The width of the image, in pixels.
    pub closed spec fn spec_width(&self) -> u32 {
        self.width
    }

    /// The height of the image, in pixels.
    pub closed spec fn spec_height(&self) -> u32 {
        self.height
    }

    /// Where the next character goes in the current line.
    pub closed spec fn cursor_x(&self) -> u32 {
        self.pos_x
    }

    /// The top of the current line.
    pub closed spec fn cursor_y(&self) -> u32 {
        self.pos_y
    }

    /// The height of the current line: the tallest character in it, with its border.
    pub closed spec fn spec_line_height(&self) -> u32 {
        self.line_height
    }

    /// The samples of the image, row by row.
    pub closed spec fn samples(&self) -> Seq<u8> {
        gray_samples(self.image)
    }

    /// The value of pixel `(x, y)`.
    pub open spec fn pixel(&self, x: int, y: int) -> u8 {
        self.samples()[sample_index(self.spec_width(), x, y)]
    }

    /// The image holds one sample per pixel, its size can be counted in `u32`, and the
    /// cursor lies inside it.
    pub closed spec fn wf(&self) -> bool {
        &&& gray_width(self.image) == self.width
        &&& gray_height(self.image) == self.height
        &&& gray_samples(self.image).len() == self.width as int * self.height as int
        &&& self.width as int * self.height as int <= u32::MAX
        &&& self.pos_x <= self.width
        &&& self.pos_y + self.line_height <= self.height
    }

    /// A character `w` by `h` pixels, with its border, fits at the cursor in the current line.
    pub open spec fn fits_current_line(&self, w: int, h: int) -> bool {
        &&& w + 2 * Self::OFFSET <= self.spec_width() - self.cursor_x()
        &&& h + 2 * Self::OFFSET <= self.spec_height() - self.cursor_y()
    }

    /// A character `w` by `h` pixels, with its border, fits at the start of a new line below
    /// the current one.
    pub open spec fn fits_new_line(&self, w: int, h: int) -> bool {
        &&& w + 2 * Self::OFFSET <= self.spec_width()
        &&& h + 2 * Self::OFFSET <= self.spec_height() - (self.cursor_y() + self.spec_line_height())
    }

    /// Every pixel of `self` equals `content` inside the rectangle `w` by `h` at `(x0, y0)`
    /// (taken relative to that corner) and the pixel of `before` outside it; the two images
    /// have the same size.
    pub open spec fn painted(
        &self,
        before: Self,
        x0: int,
        y0: int,
        w: int,
        h: int,
        content: spec_fn(int, int) -> u8,
    ) -> bool {
        &&& self.spec_width() == before.spec_width()
        &&& self.spec_height() == before.spec_height()
        &&& forall|px: int, py: int|
            0 <= px < self.spec_width() && 0 <= py < self.spec_height() ==> #[trigger] self.pixel(
                px,
                py,
            ) == if x0 <= px < x0 + w && y0 <= py < y0 + h {
                content(px - x0, py - y0)
            } else {
                before.pixel(px, py)
            }
    }

    /// `self` is `before` with a character `w` by `h` of the given content placed, with its
    /// border, at `(cx, cy)`: the content drawn inside the border, the cursor moved behind it,
    /// and the line grown to hold it.
    pub open spec fn placed(
        &self,
        before: Self,
        cx: int,
        cy: int,
        line_height: int,
        w: int,
        h: int,
        content: spec_fn(int, int) -> u8,
    ) -> bool {
        &&& self.painted(before, cx + Self::OFFSET, cy + Self::OFFSET, w, h, content)
        &&& self.cursor_x() == cx + w + 2 * Self::OFFSET
        &&& self.cursor_y() == cy
        &&& self.spec_line_height() == if line_height >= h + 2 * Self::OFFSET {
            line_height
        } else {
            h + 2 * Self::OFFSET
        }
    }

    /// The packing that `add_char` and `copy_char` share: a character `w` by `h` with the
    /// given content goes at the cursor if it fits in the current line, else at the start of a
    /// new line if it fits there; else nothing changes and `None` comes back.
    pub open spec fn packed(
        &self,
        before: Self,
        w: int,
        h: int,
        content: spec_fn(int, int) -> u8,
        r: Option<CharParams>,
    ) -> bool {
        if before.fits_current_line(w, h) {
            &&& r == Some(
                CharParams {
                    x: (before.cursor_x() + Self::OFFSET) as u32,
                    y: (before.cursor_y() + Self::OFFSET) as u32,
                    w: w as u32,
                    h: h as u32,
                },
            )
            &&& self.placed(
                before,
                before.cursor_x() as int,
                before.cursor_y() as int,
                before.spec_line_height() as int,
                w,
                h,
                content,
            )
        } else if before.fits_new_line(w, h) {
            let y = before.cursor_y() + before.spec_line_height();
            &&& r == Some(
                CharParams { x: Self::OFFSET, y: (y + Self::OFFSET) as u32, w: w as u32, h: h as u32 },
            )
            &&& self.placed(before, 0, y, 0, w, h, content)
        } else {
            &&& r.is_none()
            &&& *self == before
        }
    }

    /// The content of a glyph bitmap, pixel by pixel.
    pub open spec fn bitmap_content(glyph: &GlyphBitmap) -> spec_fn(int, int) -> u8 {
        |i: int, j: int| glyph.value(i, j)
    }

    /// The content of the rectangle of `params` in `source`, pixel by pixel.
    pub open spec fn region_content(source: Self, params: CharParams) -> spec_fn(int, int) -> u8 {
        |i: int, j: int| source.pixel(params.x + i, params.y + j)
    }

    /// A blank image `width` by `height` with the cursor at the top left corner; `None` when
    /// the image crate refuses the buffer.
    pub fn new(width: u32, height: u32) -> (r: Option<Self>)
        requires
            width as int * height as int <= u32::MAX,
        ensures
            r matches Some(img) ==> {
                &&& img.wf()
                &&& img.spec_width() == width
                &&& img.spec_height() == height
                &&& img.cursor_x() == 0
                &&& img.cursor_y() == 0
                &&& img.spec_line_height() == 0
                &&& forall|px: int, py: int|
                    0 <= px < width && 0 <= py < height ==> #[trigger] img.pixel(px, py) == 0
            },
            r.is_some(),
    {
        let n: u32 = width * height;
        let buf: Vec<u8> = vec![0u8; n as usize];
        assert forall|i: int| 0 <= i < buf@.len() implies buf@[i] == 0u8 by {
            assert(cloned(0u8, buf@[i]));
        }
        let image = gray_from_raw(width, height, buf)?;
        let r = Self { width, height, image, pos_x: 0, pos_y: 0, line_height: 0 };
        assert forall|px: int, py: int| 0 <= px < width && 0 <= py < height implies #[trigger] r.pixel(
            px,
            py,
        ) == 0 by {
            lemma_grid_index_bound(width as int, height as int, px, py);
        }
        Some(r)
    }

    /// The width of the image, in pixels.
    pub fn get_width(&self) -> (r: u32)
        ensures
            r == self.spec_width(),
    {
        self.width
    }

    /// The height of the image, in pixels.
    pub fn get_height(&self) -> (r: u32)
        ensures
            r == self.spec_height(),
    {
        self.height
    }

    /// The samples of the image, row by row, for making a texture of it.
    pub fn get_samples(&self) -> (r: &Vec<u8>)
        ensures
            r@ == self.samples(),
    {
        gray_as_raw(&self.image)
    }

    /// Whether a character `char_width` by `char_height` fits, with its border, at the cursor.
    pub(crate) fn has_space_in_current_line(&self, char_width: u32, char_height: u32) -> (r: bool)
        requires
            self.wf(),
            char_width + 2 * Self::OFFSET <= u32::MAX,
            char_height + 2 * Self::OFFSET <= u32::MAX,
        ensures
            r == self.fits_current_line(char_width as int, char_height as int),
    {
        let required_width = char_width + Self::OFFSET * 2;
        let required_height = char_height + Self::OFFSET * 2;
        let horizontal = required_width <= self.width - self.pos_x;
        let vertical = required_height <= self.height - self.pos_y;
        horizontal && vertical
    }

    /// Whether a character `char_width` by `char_height` fits, with its border, at the start
    /// of a new line.
    pub(crate) fn has_space_in_new_line(&self, char_width: u32, char_height: u32) -> (r: bool)
        requires
            self.wf(),
            char_width + 2 * Self::OFFSET <= u32::MAX,
            char_height + 2 * Self::OFFSET <= u32::MAX,
        ensures
            r == self.fits_new_line(char_width as int, char_height as int),
    {
        let required_width = char_width + Self::OFFSET * 2;
        let required_height = char_height + Self::OFFSET * 2;
        let horizontal = required_width <= self.width;
        let vertical = required_height <= self.height - (self.pos_y + self.line_height);
        horizontal && vertical
    }
}


/// Writing one sample changes the pixel it belongs to and no other.
pub proof fn lemma_put_one_pixel(
    before: Seq<u8>,
    after: Seq<u8>,
    w: u32,
    h: u32,
    x: int,
    y: int,
    v: u8,
)
    requires
        before.len() == w as int * h as int,
        0 <= x < w,
        0 <= y < h,
        after == before.update(sample_index(w, x, y), v),
    ensures
        after.len() == before.len(),
        forall|px: int, py: int|
            0 <= px < w && 0 <= py < h ==> #[trigger] after[sample_index(w, px, py)] == if px == x
                && py == y {
                v
            } else {
                before[sample_index(w, px, py)]
            },
{
    lemma_grid_index_bound(w as int, h as int, x, y);
    assert forall|px: int, py: int| 0 <= px < w && 0 <= py < h implies #[trigger] after[sample_index(
        w,
        px,
        py,
    )] == if px == x && py == y {
        v
    } else {
        before[sample_index(w, px, py)]
    } by {
        lemma_grid_index_bound(w as int, h as int, px, py);
        if sample_index(w, px, py) == sample_index(w, x, y) {
            lemma_grid_index_injective(w as int, px, py, x, y);
        }
    }
}

impl FontTextureImage {
    /// Writes the value of one pixel.
    fn put(&mut self, x: u32, y: u32, v: u8)
        requires
            old(self).wf(),
            x < old(self).spec_width(),
            y < old(self).spec_height(),
        ensures
            final(self).wf(),
            final(self).painted(*old(self), x as int, y as int, 1, 1, |i: int, j: int| v),
            final(self).cursor_x() == old(self).cursor_x(),
            final(self).cursor_y() == old(self).cursor_y(),
            final(self).spec_line_height() == old(self).spec_line_height(),
    {
        let ghost before = gray_samples(self.image);
        gray_put_pixel(&mut self.image, x, y, v);
        proof {
            lemma_put_one_pixel(
                before,
                gray_samples(self.image),
                self.width,
                self.height,
                x as int,
                y as int,
                v,
            );
        }
    }

    /// Draws `glyph` with its border at `(pos_x, pos_y)` in the current line and moves the
    /// cursor behind it.
    fn draw_char(&mut self, pos_x: u32, pos_y: u32, glyph: &GlyphBitmap)
        requires
            old(self).wf(),
            glyph.well_sized(),
            pos_y == old(self).cursor_y(),
            pos_x + glyph.width + 2 * Self::OFFSET <= old(self).spec_width(),
            pos_y + glyph.height + 2 * Self::OFFSET <= old(self).spec_height(),
        ensures
            final(self).wf(),
            final(self).placed(
                *old(self),
                pos_x as int,
                pos_y as int,
                old(self).spec_line_height() as int,
                glyph.width as int,
                glyph.height as int,
                Self::bitmap_content(glyph),
            ),
    {
        let ghost before = *self;
        let ghost content = Self::bitmap_content(glyph);
        let width = glyph.width;
        let height = glyph.height;
        let x0 = pos_x + Self::OFFSET;
        let y0 = pos_y + Self::OFFSET;
        proof {
            lemma_grid_area_monotone(
                width as int,
                height as int,
                self.width as int,
                self.height as int,
            );
        }
        let mut x: u32 = 0;
        while x < width
            invariant
                self.wf(),
                x <= width,
                width == glyph.width,
                height == glyph.height,
                glyph.well_sized(),
                x0 == pos_x + Self::OFFSET,
                y0 == pos_y + Self::OFFSET,
                pos_x + width + 2 * Self::OFFSET <= self.spec_width(),
                pos_y + height + 2 * Self::OFFSET <= self.spec_height(),
                width as int * height as int <= u32::MAX,
                content == Self::bitmap_content(glyph),
                self.cursor_x() == before.cursor_x(),
                self.cursor_y() == before.cursor_y(),
                self.spec_line_height() == before.spec_line_height(),
                self.painted(
                    before,
                    x0 as int,
                    y0 as int,
                    x as int,
                    height as int,
                    content,
                ),
            decreases width - x,
        {
            let mut y: u32 = 0;
            while y < height
                invariant
                    self.wf(),
                    x < width,
                    y <= height,
                    width == glyph.width,
                    height == glyph.height,
                    glyph.well_sized(),
                    x0 == pos_x + Self::OFFSET,
                    y0 == pos_y + Self::OFFSET,
                    pos_x + width + 2 * Self::OFFSET <= self.spec_width(),
                    pos_y + height + 2 * Self::OFFSET <= self.spec_height(),
                    width as int * height as int <= u32::MAX,
                    content == Self::bitmap_content(glyph),
                    self.cursor_x() == before.cursor_x(),
                    self.cursor_y() == before.cursor_y(),
                    self.spec_line_height() == before.spec_line_height(),
                    self.spec_width() == before.spec_width(),
                    self.spec_height() == before.spec_height(),
                    forall|px: int, py: int|
                        0 <= px < self.spec_width() && 0 <= py < self.spec_height()
                            ==> #[trigger] self.pixel(px, py) == if x0 <= px < x0 + width && y0
                            <= py < y0 + height && (px - x0 < x || (px - x0 == x && py - y0 < y)) {
                            content(px - x0, py - y0)
                        } else {
                            before.pixel(px, py)
                        },
                decreases height - y,
            {
                proof {
                    lemma_grid_index_bound(width as int, height as int, x as int, y as int);
                }
                let s_index = (y * width + x) as usize;
                let luma = glyph.data[s_index];
                let ghost mid = *self;
                self.put(x0 + x, y0 + y, luma);
                y = y + 1;
                assert forall|px: int, py: int|
                    0 <= px < self.spec_width() && 0 <= py < self.spec_height()
                        implies #[trigger] self.pixel(px, py) == if x0 <= px < x0 + width && y0
                        <= py < y0 + height && (px - x0 < x || (px - x0 == x && py - y0 < y)) {
                        content(px - x0, py - y0)
                    } else {
                        before.pixel(px, py)
                    } by {
                    assert(self.pixel(px, py) == mid.pixel(px, py) || (px == x0 + x && py == y0
                        + y - 1));
                }
            }
            x = x + 1;
        }
        let ghost drawn = *self;
        self.pos_x = pos_x + width + Self::OFFSET * 2;
        let needed = height + Self::OFFSET * 2;
        if needed > self.line_height {
            self.line_height = needed;
        }
        assert forall|px: int, py: int|
            0 <= px < self.spec_width() && 0 <= py < self.spec_height() implies #[trigger] self.pixel(
                px,
                py,
            ) == drawn.pixel(px, py) by {}
        assert(self.painted(before, x0 as int, y0 as int, width as int, height as int, content));
    }

    /// Adds a character to the image: at the cursor if it fits in the current line, else at
    /// the start of a new line if it fits there, else not at all (`None`). Gives back where
    /// the character's bitmap now lies.
    pub fn add_char(&mut self, glyph: &GlyphBitmap) -> (r: Option<CharParams>)
        requires
            old(self).wf(),
            glyph.width + 2 * Self::OFFSET <= u32::MAX,
            glyph.height + 2 * Self::OFFSET <= u32::MAX,
            old(self).fits_current_line(glyph.width as int, glyph.height as int) || old(self).fits_new_line(glyph.width as int, glyph.height as int) ==> glyph.data@.len()
                >= glyph.width as int * glyph.height as int,
        ensures
            final(self).wf(),
            final(self).packed(
                *old(self),
                glyph.width as int,
                glyph.height as int,
                Self::bitmap_content(glyph),
                r,
            ),
    {
        if self.has_space_in_current_line(glyph.width, glyph.height) {
            let pos_x = self.pos_x;
            let pos_y = self.pos_y;
            self.draw_char(pos_x, pos_y, glyph);
            Some(
                CharParams {
                    x: pos_x + Self::OFFSET,
                    y: pos_y + Self::OFFSET,
                    w: glyph.width,
                    h: glyph.height,
                },
            )
        } else if self.has_space_in_new_line(glyph.width, glyph.height) {
            let ghost before = *self;
            self.pos_y = self.pos_y + self.line_height;
            self.pos_x = 0;
            self.line_height = 0;
            let pos_x = self.pos_x;
            let pos_y = self.pos_y;
            self.draw_char(pos_x, pos_y, glyph);
            Some(
                CharParams {
                    x: pos_x + Self::OFFSET,
                    y: pos_y + Self::OFFSET,
                    w: glyph.width,
                    h: glyph.height,
                },
            )
        } else {
            None
        }
    }
}


impl FontTextureImage {
    /// Reads the value of one pixel.
    fn get(&self, x: u32, y: u32) -> (r: u8)
        requires
            self.wf(),
            x < self.spec_width(),
            y < self.spec_height(),
        ensures
            r == self.pixel(x as int, y as int),
    {
        gray_get_pixel(&self.image, x, y)
    }

    /// Copies the rectangle of `params` in `source`, with a border, to `(pos_x, pos_y)` in the
    /// current line and moves the cursor behind it.
    fn copy_region(&mut self, pos_x: u32, pos_y: u32, source: &FontTextureImage, params: &CharParams)
        requires
            old(self).wf(),
            source.wf(),
            params.x + params.w <= source.spec_width(),
            params.y + params.h <= source.spec_height(),
            pos_y == old(self).cursor_y(),
            pos_x + params.w + 2 * Self::OFFSET <= old(self).spec_width(),
            pos_y + params.h + 2 * Self::OFFSET <= old(self).spec_height(),
        ensures
            final(self).wf(),
            final(self).placed(
                *old(self),
                pos_x as int,
                pos_y as int,
                old(self).spec_line_height() as int,
                params.w as int,
                params.h as int,
                Self::region_content(*source, *params),
            ),
    {
        let ghost before = *self;
        let ghost content = Self::region_content(*source, *params);
        let width = params.w;
        let height = params.h;
        let x0 = pos_x + Self::OFFSET;
        let y0 = pos_y + Self::OFFSET;
        let mut x: u32 = 0;
        while x < width
            invariant
                self.wf(),
                source.wf(),
                x <= width,
                width == params.w,
                height == params.h,
                params.x + params.w <= source.spec_width(),
                params.y + params.h <= source.spec_height(),
                x0 == pos_x + Self::OFFSET,
                y0 == pos_y + Self::OFFSET,
                pos_x + width + 2 * Self::OFFSET <= self.spec_width(),
                pos_y + height + 2 * Self::OFFSET <= self.spec_height(),
                content == Self::region_content(*source, *params),
                self.cursor_x() == before.cursor_x(),
                self.cursor_y() == before.cursor_y(),
                self.spec_line_height() == before.spec_line_height(),
                self.painted(
                    before,
                    x0 as int,
                    y0 as int,
                    x as int,
                    height as int,
                    content,
                ),
            decreases width - x,
        {
            let mut y: u32 = 0;
            while y < height
                invariant
                    self.wf(),
                    source.wf(),
                    x < width,
                    y <= height,
                    width == params.w,
                    height == params.h,
                    params.x + params.w <= source.spec_width(),
                    params.y + params.h <= source.spec_height(),
                    x0 == pos_x + Self::OFFSET,
                    y0 == pos_y + Self::OFFSET,
                    pos_x + width + 2 * Self::OFFSET <= self.spec_width(),
                    pos_y + height + 2 * Self::OFFSET <= self.spec_height(),
                    content == Self::region_content(*source, *params),
                    self.cursor_x() == before.cursor_x(),
                    self.cursor_y() == before.cursor_y(),
                    self.spec_line_height() == before.spec_line_height(),
                    self.spec_width() == before.spec_width(),
                    self.spec_height() == before.spec_height(),
                    forall|px: int, py: int|
                        0 <= px < self.spec_width() && 0 <= py < self.spec_height()
                            ==> #[trigger] self.pixel(px, py) == if x0 <= px < x0 + width && y0
                            <= py < y0 + height && (px - x0 < x || (px - x0 == x && py - y0 < y)) {
                            content(px - x0, py - y0)
                        } else {
                            before.pixel(px, py)
                        },
                decreases height - y,
            {
                let luma = source.get(params.x + x, params.y + y);
                let ghost mid = *self;
                self.put(x0 + x, y0 + y, luma);
                y = y + 1;
                assert forall|px: int, py: int|
                    0 <= px < self.spec_width() && 0 <= py < self.spec_height()
                        implies #[trigger] self.pixel(px, py) == if x0 <= px < x0 + width && y0
                        <= py < y0 + height && (px - x0 < x || (px - x0 == x && py - y0 < y)) {
                        content(px - x0, py - y0)
                    } else {
                        before.pixel(px, py)
                    } by {
                    assert(self.pixel(px, py) == mid.pixel(px, py) || (px == x0 + x && py == y0
                        + y - 1));
                }
            }
            x = x + 1;
        }
        let ghost drawn = *self;
        self.pos_x = pos_x + width + Self::OFFSET * 2;
        let needed = height + Self::OFFSET * 2;
        if needed > self.line_height {
            self.line_height = needed;
        }
        assert forall|px: int, py: int|
            0 <= px < self.spec_width() && 0 <= py < self.spec_height() implies #[trigger] self.pixel(
                px,
                py,
            ) == drawn.pixel(px, py) by {}
        assert(self.painted(before, x0 as int, y0 as int, width as int, height as int, content));
    }

    /// Copies the character that lies at `params` in `source` into this image, packed as
    /// `add_char` packs a new one; gives back where it now lies, or `None` where it fits
    /// neither in the current line nor in a new one.
    pub fn copy_char(&mut self, source: &FontTextureImage, params: &CharParams) -> (r: Option<
        CharParams,
    >)
        requires
            old(self).wf(),
            source.wf(),
            params.x + params.w <= source.spec_width(),
            params.y + params.h <= source.spec_height(),
            params.w + 2 * Self::OFFSET <= u32::MAX,
            params.h + 2 * Self::OFFSET <= u32::MAX,
        ensures
            final(self).wf(),
            final(self).packed(
                *old(self),
                params.w as int,
                params.h as int,
                Self::region_content(*source, *params),
                r,
            ),
    {
        if !self.has_space_in_current_line(params.w, params.h) {
            if self.has_space_in_new_line(params.w, params.h) {
                self.pos_x = 0;
                self.pos_y = self.pos_y + self.line_height;
                self.line_height = 0;
            } else {
                return None;
            }
        }
        let pos_x = self.pos_x;
        let pos_y = self.pos_y;
        self.copy_region(pos_x, pos_y, source, params);
        Some(CharParams { x: pos_x + Self::OFFSET, y: pos_y + Self::OFFSET, w: params.w, h: params.h })
    }
}


impl FontTextureImage {
    /// The pixel at `(i, j)` inside the rectangle of `p`.
    pub open spec fn glyph_pixel(&self, p: CharParams, i: int, j: int) -> u8 {
        self.pixel(p.x + i, p.y + j)
    }

    /// `p` is the character packed last: it lies in the current line, and the cursor stands
    /// right behind it and its border.
    pub open spec fn last_packed(&self, p: CharParams) -> bool {
        &&& self.cursor_x() == p.x + p.w + Self::OFFSET
        &&& self.cursor_y() + Self::OFFSET == p.y
        &&& self.spec_line_height() >= p.h + 2 * Self::OFFSET
    }

    /// The rectangle of `p`, with its border, lies inside the image.
    pub open spec fn rect_in_bounds(&self, p: CharParams) -> bool {
        &&& p.x >= Self::OFFSET
        &&& p.y >= Self::OFFSET
        &&& p.x + p.w + Self::OFFSET <= self.spec_width()
        &&& p.y + p.h + Self::OFFSET <= self.spec_height()
    }

    /// The rectangle of `p`, with its border, lies in a finished line above the current one,
    /// or in the current line left of the cursor: where nothing will be drawn any more.
    pub open spec fn behind_cursor(&self, p: CharParams) -> bool {
        let bottom = p.y + p.h + Self::OFFSET;
        ||| bottom <= self.cursor_y()
        ||| {
            &&& p.y >= self.cursor_y() + Self::OFFSET
            &&& p.x + p.w + Self::OFFSET <= self.cursor_x()
            &&& bottom <= self.cursor_y() + self.spec_line_height()
        }
    }

    /// The rectangle of `p` holds the given content.
    pub open spec fn holds(&self, p: CharParams, content: spec_fn(int, int) -> u8) -> bool {
        forall|i: int, j: int|
            0 <= i < p.w && 0 <= j < p.h ==> #[trigger] self.glyph_pixel(p, i, j) == content(i, j)
    }

    /// The rectangle of `p` in `self` holds the same character as the rectangle of `q` in
    /// `other`: the same size and the same pixels.
    pub open spec fn same_glyph(&self, p: CharParams, other: Self, q: CharParams) -> bool {
        &&& p.w == q.w
        &&& p.h == q.h
        &&& forall|i: int, j: int|
            0 <= i < p.w && 0 <= j < p.h ==> #[trigger] self.glyph_pixel(p, i, j)
                == other.glyph_pixel(q, i, j)
    }
}

/// Packing a character leaves every character that lay behind the cursor where it was, with
/// the same pixels, and still behind the cursor.
pub proof fn lemma_packed_keeps(
    after: FontTextureImage,
    before: FontTextureImage,
    w: int,
    h: int,
    content: spec_fn(int, int) -> u8,
    r: Option<CharParams>,
    p: CharParams,
)
    requires
        before.wf(),
        0 <= w,
        0 <= h,
        after.packed(before, w, h, content, r),
        before.rect_in_bounds(p),
        before.behind_cursor(p),
    ensures
        after.rect_in_bounds(p),
        after.behind_cursor(p),
        after.same_glyph(p, before, p),
{
    if r.is_some() {
        assert forall|i: int, j: int| 0 <= i < p.w && 0 <= j < p.h implies #[trigger] after.glyph_pixel(
            p,
            i,
            j,
        ) == before.glyph_pixel(p, i, j) by {
            assert(after.pixel(p.x + i, p.y + j) == before.pixel(p.x + i, p.y + j));
        }
    }
}

/// Packing a character that fits places it, with its content, behind the new cursor.
pub proof fn lemma_packed_new(
    after: FontTextureImage,
    before: FontTextureImage,
    w: int,
    h: int,
    content: spec_fn(int, int) -> u8,
    r: Option<CharParams>,
)
    requires
        before.wf(),
        0 <= w,
        0 <= h,
        after.packed(before, w, h, content, r),
        r.is_some(),
    ensures
        after.rect_in_bounds(r->0),
        after.behind_cursor(r->0),
        after.holds(r->0, content),
        r->0.w == w,
        r->0.h == h,
{
    let p = r->0;
    assert forall|i: int, j: int| 0 <= i < p.w && 0 <= j < p.h implies #[trigger] after.glyph_pixel(
        p,
        i,
        j,
    ) == content(i, j) by {
        assert(after.pixel(p.x + i, p.y + j) == content(i, j));
    }
}


/// The bitmaps of two characters share no pixel.
pub open spec fn disjoint(p: CharParams, q: CharParams) -> bool {
    ||| p.x + p.w <= q.x
    ||| q.x + q.w <= p.x
    ||| p.y + p.h <= q.y
    ||| q.y + q.h <= p.y
}

/// A character packed at the cursor shares no pixel with any character behind the cursor.
pub proof fn lemma_packed_disjoint(
    after: FontTextureImage,
    before: FontTextureImage,
    w: int,
    h: int,
    content: spec_fn(int, int) -> u8,
    r: Option<CharParams>,
    q: CharParams,
)
    requires
        before.wf(),
        0 <= w,
        0 <= h,
        after.packed(before, w, h, content, r),
        r.is_some(),
        before.behind_cursor(q),
    ensures
        disjoint(r->0, q),
        disjoint(q, r->0),
{
}

/// The characters packed into an image so far lie inside it with their borders, behind its
/// cursor, and no two of them share a pixel.
pub open spec fn packing_sound(img: FontTextureImage, placed: Seq<CharParams>) -> bool {
    &&& img.wf()
    &&& forall|i: int| #![trigger placed[i]]
        0 <= i < placed.len() ==> img.rect_in_bounds(placed[i]) && img.behind_cursor(placed[i])
    &&& forall|i: int, j: int| #![trigger placed[i], placed[j]]
        0 <= i < j < placed.len() ==> disjoint(placed[i], placed[j])
}

/// What a packing step adds to the characters placed: the rectangle it gave, if any.
pub open spec fn placed_after(placed: Seq<CharParams>, r: Option<CharParams>) -> Seq<CharParams> {
    match r {
        Some(p) => placed.push(p),
        None => placed,
    }
}

/// The rectangles that a sequence of packing steps gave, in order, leaving out the refusals.
pub open spec fn placed_of(results: Seq<Option<CharParams>>) -> Seq<CharParams>
    decreases results.len(),
{
    if results.len() == 0 {
        Seq::<CharParams>::empty()
    } else {
        placed_after(placed_of(results.drop_last()), results.last())
    }
}

/// One packing step, by `add_char` or `copy_char`, keeps the image sound: what was placed
/// stays inside, behind the cursor and apart, and so does what the step places.
pub proof fn law_packing_step_sound(
    before: FontTextureImage,
    after: FontTextureImage,
    w: int,
    h: int,
    content: spec_fn(int, int) -> u8,
    r: Option<CharParams>,
    placed: Seq<CharParams>,
)
    requires
        packing_sound(before, placed),
        after.wf(),
        0 <= w,
        0 <= h,
        after.packed(before, w, h, content, r),
    ensures
        packing_sound(after, placed_after(placed, r)),
{
    let next = placed_after(placed, r);
    assert forall|i: int| #![trigger next[i]] 0 <= i < next.len() implies after.rect_in_bounds(
        next[i],
    ) && after.behind_cursor(next[i]) by {
        if i < placed.len() {
            assert(next[i] == placed[i]);
            lemma_packed_keeps(after, before, w, h, content, r, placed[i]);
        } else {
            lemma_packed_new(after, before, w, h, content, r);
        }
    }
    assert forall|i: int, j: int| #![trigger next[i], next[j]]
        0 <= i < j < next.len() implies disjoint(next[i], next[j]) by {
        assert(next[i] == placed[i]);
        if j < placed.len() {
            assert(next[j] == placed[j]);
        } else {
            lemma_packed_disjoint(after, before, w, h, content, r, placed[i]);
        }
    }
}

/// Any sequence of packing steps on a well-formed image, each an `add_char` or a `copy_char`,
/// keeps every rectangle given so far inside the image with its border, behind the cursor,
/// and apart from every other.
pub proof fn law_packing_sequence_sound(
    images: Seq<FontTextureImage>,
    widths: Seq<int>,
    heights: Seq<int>,
    contents: Seq<spec_fn(int, int) -> u8>,
    results: Seq<Option<CharParams>>,
)
    requires
        images.len() == results.len() + 1,
        widths.len() == results.len(),
        heights.len() == results.len(),
        contents.len() == results.len(),
        images[0].wf(),
        forall|k: int| #![trigger images[k + 1]]
            0 <= k < results.len() ==> {
                &&& images[k + 1].wf()
                &&& 0 <= widths[k]
                &&& 0 <= heights[k]
                &&& images[k + 1].packed(images[k], widths[k], heights[k], contents[k], results[k])
            },
    ensures
        packing_sound(images.last(), placed_of(results)),
    decreases results.len(),
{
    let n = results.len();
    if n == 0 {
        assert(packing_sound(images[0], Seq::<CharParams>::empty()));
    } else {
        let k = n - 1;
        assert(images[k + 1].wf());
        law_packing_sequence_sound(
            images.drop_last(),
            widths.drop_last(),
            heights.drop_last(),
            contents.drop_last(),
            results.drop_last(),
        );
        assert(images.drop_last().last() == images[k]);
        law_packing_step_sound(
            images[k],
            images[k + 1],
            widths[k],
            heights[k],
            contents[k],
            results[k],
            placed_of(results.drop_last()),
        );
    }
}

/// Copying the rectangle `p` of `source` packs exactly as adding a bitmap of the same size
/// with the same pixels would: the same result, the same cursor and line, the same pixels.
pub proof fn law_copy_is_add(
    before: FontTextureImage,
    by_copy: FontTextureImage,
    by_add: FontTextureImage,
    source: FontTextureImage,
    p: CharParams,
    glyph: GlyphBitmap,
    r_copy: Option<CharParams>,
    r_add: Option<CharParams>,
)
    requires
        glyph.width == p.w,
        glyph.height == p.h,
        forall|i: int, j: int|
            0 <= i < p.w && 0 <= j < p.h ==> #[trigger] glyph.value(i, j) == source.pixel(
                p.x + i,
                p.y + j,
            ),
        by_copy.packed(
            before,
            p.w as int,
            p.h as int,
            FontTextureImage::region_content(source, p),
            r_copy,
        ),
        by_add.packed(
            before,
            glyph.width as int,
            glyph.height as int,
            FontTextureImage::bitmap_content(&glyph),
            r_add,
        ),
    ensures
        r_copy == r_add,
        by_copy.spec_width() == by_add.spec_width(),
        by_copy.spec_height() == by_add.spec_height(),
        by_copy.cursor_x() == by_add.cursor_x(),
        by_copy.cursor_y() == by_add.cursor_y(),
        by_copy.spec_line_height() == by_add.spec_line_height(),
        forall|x: int, y: int|
            0 <= x < by_copy.spec_width() && 0 <= y < by_copy.spec_height() ==> #[trigger] by_copy.pixel(
                x,
                y,
            ) == by_add.pixel(x, y),
{
    let c1 = FontTextureImage::region_content(source, p);
    let c2 = FontTextureImage::bitmap_content(&glyph);
    assert forall|i: int, j: int| 0 <= i < p.w && 0 <= j < p.h implies #[trigger] c1(i, j) == c2(
        i,
        j,
    ) by {
        assert(glyph.value(i, j) == source.pixel(p.x + i, p.y + j));
    }
}

} // verus!
