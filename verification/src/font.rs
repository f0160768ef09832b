use vstd::prelude::*;

use std::collections::HashMap;

use crate::error::Error;
use crate::font_atlas::{lemma_grid_area_monotone, CharParams, FontTextureImage, GlyphBitmap};
use crate::texture_atlas::{char_key, FontTextureAtlas};

verus! {

broadcast use vstd::std_specs::hash::group_hash_axioms;

/// The characters of a font that were asked for: for each size in pixels, an atlas of them.
/// A `FontFace` keeps them beside the font's outlines, which a rasterizer turns into the bitmaps
/// handed to `get_char`.
pub struct FontAtlases<T> {
    font_map: HashMap<u32, FontTextureAtlas<T>>,
}

/// Where `c` lies in `atlas`, or an empty rectangle at the origin where it is not there.
pub open spec fn rect_of<T>(atlas: FontTextureAtlas<T>, c: char) -> CharParams {
    if atlas.chars().contains_key(char_key(c)) {
        atlas.chars()[char_key(c)]
    } else {
        CharParams { x: 0, y: 0, w: 0, h: 0 }
    }
}

/// A character the atlas of `size` holds meets `can_take` whatever bitmap comes with it, so
/// `get_char` may be asked for it again (with any well-sized bitmap, an empty one too); its
/// contract then gives back the rectangle held and leaves the atlases as they are.
pub proof fn law_held_char_asked_again<T>(fa: FontAtlases<T>, c: char, size: u32, glyph: GlyphBitmap)
    requires
        holds_char(fa, size, c),
    ensures
        fa.can_take(c, size, &glyph),
{
}

/// Where the texture of an atlas comes from: the one stored, or its image.
pub enum TextureSource<'a, T> {
    Cached(&'a T),
    Image(&'a FontTextureImage),
}

/// Why `text_rects` left a character of the text out of the atlas.
#[derive(Clone, Copy, Debug, PartialEq, Eq, Structural)]
pub enum Refusal {
    /// Its bitmap holds fewer values than its size says, or its size with a border does not
    /// fit in `u32`.
    BadBitmap,
    /// It did not fit, and the image grown for it could not be measured in `u32`.
    TooLarge,
    /// The image grew for it, but the characters it held did not all fit back.
    NoRoom,
}

/// The rectangles of a laid out text, one per glyph laid out; for each bitmap handed in, in
/// order, `None` where its character was packed or held already, else why it could not be;
/// the atlases before each bitmap was tried and after the last; and the atlases before each
/// glyph laid out was looked up and after the last.
pub struct TextRects<T> {
    pub rects: Vec<CharParams>,
    pub outcomes: Vec<Option<Refusal>>,
    pub trace: Ghost<Seq<FontAtlases<T>>>,
    pub lookups: Ghost<Seq<FontAtlases<T>>>,
}

/// The atlas of `size` holds `c`.
pub open spec fn holds_char<T>(fa: FontAtlases<T>, size: u32, c: char) -> bool {
    fa.atlases().contains_key(size) && fa.atlases()[size].chars().contains_key(char_key(c))
}

/// The image of `size` grown for `glyph` could not be measured in `u32`.
pub open spec fn too_large_for<T>(fa: FontAtlases<T>, size: u32, glyph: GlyphBitmap) -> bool {
    let w = glyph.width as int;
    let h = glyph.height as int;
    if fa.atlases().contains_key(size) {
        let img = fa.atlases()[size].atlas_image();
        (w + img.spec_width() + 2 * FontTextureImage::OFFSET) * (h + img.spec_height() + 2
            * FontTextureImage::OFFSET) > u32::MAX
    } else {
        (w + 128 + 2 * FontTextureImage::OFFSET) * (h + 128 + 2 * FontTextureImage::OFFSET)
            > u32::MAX
    }
}

/// The reason given for leaving `glyph` out holds of the atlases `fa`: a bitmap that is not
/// well sized; an image that could not grow for it; or an atlas of `size` that held at least
/// two other characters, which did not all fit back after growing.
pub open spec fn refusal_holds<T>(
    fa: FontAtlases<T>,
    size: u32,
    glyph: GlyphBitmap,
    reason: Refusal,
) -> bool {
    match reason {
        Refusal::BadBitmap => !glyph.well_sized(),
        Refusal::TooLarge => glyph.well_sized() && too_large_for(fa, size, glyph),
        Refusal::NoRoom => {
            &&& glyph.well_sized()
            &&& fa.atlases().contains_key(size)
            &&& exists|k1: u32, k2: u32|
                k1 != k2 && #[trigger] fa.atlases()[size].chars().contains_key(k1)
                    && #[trigger] fa.atlases()[size].chars().contains_key(k2)
        },
    }
}

/// The atlas of `size` in `after` exists, its image is no smaller than in `before` (or than a
/// fresh one), and it holds every character it held in `before`.
pub open spec fn grew_at<T>(before: FontAtlases<T>, after: FontAtlases<T>, size: u32) -> bool {
    &&& after.atlases().contains_key(size)
    &&& after.atlases()[size].atlas_image().spec_width() >= if before.atlases().contains_key(
        size,
    ) {
        before.atlases()[size].atlas_image().spec_width() as int
    } else {
        128
    }
    &&& after.atlases()[size].atlas_image().spec_height() >= if before.atlases().contains_key(
        size,
    ) {
        before.atlases()[size].atlas_image().spec_height() as int
    } else {
        128
    }
    &&& before.atlases().contains_key(size) ==> forall|k: u32| #[trigger]
        before.atlases()[size].chars().contains_key(k) ==> after.atlases()[size].chars().contains_key(
            k,
        )
}

/// Growing keeps every refusal reason true and every character held.
proof fn lemma_grew_keeps_all<T>(
    before: FontAtlases<T>,
    after: FontAtlases<T>,
    size: u32,
    glyphs: Seq<(char, GlyphBitmap)>,
    outcomes: Seq<Option<Refusal>>,
)
    requires
        grew_at(before, after, size),
    ensures
        forall|k: int| #![trigger outcomes[k]]
            0 <= k < outcomes.len() && k < glyphs.len() && outcomes[k] is Some && refusal_holds(
                before,
                size,
                glyphs[k].1,
                outcomes[k]->0,
            ) ==> refusal_holds(after, size, glyphs[k].1, outcomes[k]->0),
        forall|k: int| #![trigger glyphs[k]]
            0 <= k < glyphs.len() && holds_char(before, size, glyphs[k].0) ==> holds_char(
                after,
                size,
                glyphs[k].0,
            ),
{
    assert forall|k: int| #![trigger outcomes[k]]
        0 <= k < outcomes.len() && k < glyphs.len() && outcomes[k] is Some && refusal_holds(
            before,
            size,
            glyphs[k].1,
            outcomes[k]->0,
        ) implies refusal_holds(after, size, glyphs[k].1, outcomes[k]->0) by {
        let g = glyphs[k].1;
        let w = g.width as int;
        let h = g.height as int;
        let img = after.atlases()[size].atlas_image();
        match outcomes[k]->0 {
            Refusal::TooLarge => {
                if before.atlases().contains_key(size) {
                    let old_img = before.atlases()[size].atlas_image();
                    lemma_grid_area_monotone(
                        w + old_img.spec_width() + 2,
                        h + old_img.spec_height() + 2,
                        w + img.spec_width() + 2,
                        h + img.spec_height() + 2,
                    );
                } else {
                    lemma_grid_area_monotone(
                        w + 130,
                        h + 130,
                        w + img.spec_width() + 2,
                        h + img.spec_height() + 2,
                    );
                }
            },
            Refusal::NoRoom => {
                let (k1, k2) = choose|k1: u32, k2: u32|
                    k1 != k2 && #[trigger] before.atlases()[size].chars().contains_key(k1)
                        && #[trigger] before.atlases()[size].chars().contains_key(k2);
                assert(after.atlases()[size].chars().contains_key(k1));
                assert(after.atlases()[size].chars().contains_key(k2));
            },
            Refusal::BadBitmap => {},
        }
    }
}

/// What trying to pack `glyph`, the bitmap of `c` at `size`, did to the atlases `before`,
/// giving `after`, as `text_rects` tries it: with no outcome, the character is held after
/// (packed now, or held already and then nothing changed); `BadBitmap` and `TooLarge` leave
/// everything as it was, the bitmap not well sized or the atlas unable to take it; `NoRoom`
/// is where `get_char` failed: the atlas of `size` could take the glyph but did not hold
/// it, the glyph fit neither the current line nor a new one, the characters held could not
/// each take a line of their own, and no character was added.
pub open spec fn pack_step<T>(
    before: FontAtlases<T>,
    after: FontAtlases<T>,
    size: u32,
    c: char,
    glyph: GlyphBitmap,
    outcome: Option<Refusal>,
) -> bool {
    let w = glyph.width as int;
    let h = glyph.height as int;
    &&& after.wf()
    &&& forall|s: u32| #[trigger]
        before.atlases().contains_key(s) && s != size ==> after.atlases().contains_key(s)
            && after.atlases()[s] == before.atlases()[s]
    &&& (after.atlases().dom() == before.atlases().dom() || after.atlases().dom()
        == before.atlases().dom().insert(size))
    &&& match outcome {
        None => {
            &&& holds_char(after, size, c)
            &&& grew_at(before, after, size)
            &&& (holds_char(before, size, c) ==> after.atlases() == before.atlases())
            &&& after.atlases()[size].chars().dom() == (if before.atlases().contains_key(size) {
                before.atlases()[size].chars().dom()
            } else {
                Set::<u32>::empty()
            }).insert(char_key(c))
        },
        Some(Refusal::BadBitmap) => !glyph.well_sized() && after.atlases() == before.atlases(),
        Some(Refusal::TooLarge) => {
            &&& glyph.well_sized()
            &&& !before.can_take(c, size, &glyph)
            &&& after.atlases() == before.atlases()
        },
        Some(Refusal::NoRoom) => {
            &&& glyph.well_sized()
            &&& before.can_take(c, size, &glyph)
            &&& before.atlases().contains_key(size)
            &&& !holds_char(before, size, c)
            &&& !before.atlases()[size].atlas_image().fits_current_line(w, h)
            &&& !before.atlases()[size].atlas_image().fits_new_line(w, h)
            &&& !(exists|line: int| #[trigger]
                before.atlases()[size].stacks_within(
                    line,
                    before.atlases()[size].atlas_image().spec_height() as int,
                ))
            &&& grew_at(before, after, size)
            &&& after.atlases()[size].chars().dom() == before.atlases()[size].chars().dom()
        },
    }
}

/// A try to pack leaves the atlas of `size`, where there is one after it, grown from the one
/// before (or a fresh one).
proof fn lemma_step_grew<T>(
    before: FontAtlases<T>,
    after: FontAtlases<T>,
    size: u32,
    c: char,
    glyph: GlyphBitmap,
    outcome: Option<Refusal>,
)
    requires
        before.wf(),
        pack_step(before, after, size, c, glyph, outcome),
        after.atlases().contains_key(size),
    ensures
        grew_at(before, after, size),
{
}

/// The index of the first bitmap handed in for `c`.
pub open spec fn first_glyph(glyphs: Seq<(char, GlyphBitmap)>, c: char) -> int {
    choose|k: int|
        0 <= k < glyphs.len() && glyphs[k].0 == c && forall|m: int|
            0 <= m < k ==> #[trigger] glyphs[m].0 != c
}

/// What looking up `c` at `size` did to the atlases `before`, giving `after`, and the
/// rectangle it gave: a character held gives its rectangle and changes nothing; one not held
/// is tried once more with the first bitmap handed in for it, giving its new rectangle where
/// that packed it, else an empty one; one with no bitmap gives an empty rectangle.
pub open spec fn lookup_step<T>(
    before: FontAtlases<T>,
    after: FontAtlases<T>,
    size: u32,
    c: char,
    glyphs: Seq<(char, GlyphBitmap)>,
    rect: CharParams,
) -> bool {
    if holds_char(before, size, c) {
        &&& after.atlases() == before.atlases()
        &&& rect == before.atlases()[size].chars()[char_key(c)]
    } else if exists|k: int| 0 <= k < glyphs.len() && #[trigger] glyphs[k].0 == c {
        exists|outcome: Option<Refusal>|
            #[trigger] pack_step(
                before,
                after,
                size,
                c,
                glyphs[first_glyph(glyphs, c)].1,
                outcome,
            ) && rect == (if outcome is None {
                after.atlases()[size].chars()[char_key(c)]
            } else {
                CharParams { x: 0, y: 0, w: 0, h: 0 }
            })
    } else {
        &&& after.atlases() == before.atlases()
        &&& rect == CharParams { x: 0, y: 0, w: 0, h: 0 }
    }
}

/// The index of the first bitmap in `glyphs` for `c`, if any.
fn glyph_index(glyphs: &Vec<(char, GlyphBitmap)>, c: char) -> (r: Option<usize>)
    ensures
        r matches Some(k) ==> k < glyphs@.len() && glyphs@[k as int].0 == c && k == first_glyph(
            glyphs@,
            c,
        ),
        r is None ==> forall|m: int| 0 <= m < glyphs@.len() ==> #[trigger] glyphs@[m].0 != c,
{
    let mut k: usize = 0;
    while k < glyphs.len()
        invariant
            0 <= k <= glyphs@.len(),
            forall|m: int| 0 <= m < k ==> #[trigger] glyphs@[m].0 != c,
        decreases glyphs.len() - k,
    {
        if glyphs[k].0 == c {
            proof {
                let f = first_glyph(glyphs@, c);
                assert(0 <= k < glyphs@.len() && glyphs@[k as int].0 == c && forall|m: int|
                    0 <= m < k ==> #[trigger] glyphs@[m].0 != c);
                if f != k {
                    if f < k {
                        assert(glyphs@[f].0 != c);
                    } else {
                        assert(glyphs@[k as int].0 != c);
                    }
                }
            }
            return Some(k);
        }
        k = k + 1;
    }
    None
}

/// An atlas that was just made: empty, over a blank image 128 by 128 pixels.
pub open spec fn fresh_atlas<T>(a: FontTextureAtlas<T>) -> bool {
    &&& a.wf()
    &&& a.chars() == Map::<u32, CharParams>::empty()
    &&& a.atlas_image().spec_width() == 128
    &&& a.atlas_image().spec_height() == 128
    &&& a.atlas_image().cursor_x() == 0
    &&& a.atlas_image().cursor_y() == 0
    &&& a.atlas_image().spec_line_height() == 0
    &&& a.texture_spec().is_none()
}

impl<T> FontAtlases<T> {
    /// The atlas of each size asked for so far.
    pub closed spec fn atlases(&self) -> Map<u32, FontTextureAtlas<T>> {
        self.font_map@
    }

    /// Every atlas is well formed, over an image of at least 128 by 128 pixels.
    pub open spec fn wf(&self) -> bool {
        forall|size: u32| #[trigger]
            self.atlases().contains_key(size) ==> {
                &&& self.atlases()[size].wf()
                &&& self.atlases()[size].atlas_image().spec_width() >= 128
                &&& self.atlases()[size].atlas_image().spec_height() >= 128
            }
    }

    /// `get_char` for `c` at `size` with this bitmap cannot overflow: where the character is
    /// new and does not fit, the grown image can be measured in `u32`.
    pub open spec fn can_take(&self, c: char, size: u32, glyph: &GlyphBitmap) -> bool {
        let w = glyph.width as int;
        let h = glyph.height as int;
        if self.atlases().contains_key(size) {
            let a = self.atlases()[size];
            !a.chars().contains_key(char_key(c)) && !a.atlas_image().fits_current_line(w, h)
                && !a.atlas_image().fits_new_line(w, h) ==> a.can_grow_for(w, h)
        } else {
            w + 2 * FontTextureImage::OFFSET <= 128 && h + 2 * FontTextureImage::OFFSET <= 128
                || (w + 128 + 2 * FontTextureImage::OFFSET) * (h + 128 + 2
                * FontTextureImage::OFFSET) <= u32::MAX
        }
    }

    /// A font of which no character was asked for yet.
    pub fn new() -> (r: Self)
        ensures
            r.wf(),
            r.atlases() == Map::<u32, FontTextureAtlas<T>>::empty(),
    {
        Self { font_map: HashMap::new() }
    }

    /// Whether `get_char` may be called for `c` at `size` with this bitmap: the bitmap is well
    /// sized, and where the character is new and does not fit, the grown image can be
    /// measured in `u32`.
    pub fn can_take_glyph(&self, c: char, size: u32, glyph: &GlyphBitmap) -> (r: bool)
        requires
            self.wf(),
        ensures
            r == (glyph.well_sized() && self.can_take(c, size, glyph)),
    {
        let w = glyph.width as u64;
        let h = glyph.height as u64;
        assert(w * h <= u32::MAX as int * u32::MAX as int) by (nonlinear_arith)
            requires
                w <= u32::MAX,
                h <= u32::MAX,
        ;
        let area = w * h;
        if (glyph.data.len() as u64) < area || w + 2 > u32::MAX as u64 || h + 2 > u32::MAX as u64 {
            return false;
        }
        match self.font_map.get(&size) {
            Some(atlas) => {
                assert(self.atlases().contains_key(size));
                if atlas.get_char(c).is_some() {
                    return true;
                }
                let image = atlas.get_image();
                proof {
                    atlas.lemma_image_wf();
                }
                if image.has_space_in_current_line(glyph.width, glyph.height)
                    || image.has_space_in_new_line(glyph.width, glyph.height) {
                    return true;
                }
                let grown_w = w as u128 + image.get_width() as u128 + 2;
                let grown_h = h as u128 + image.get_height() as u128 + 2;
                assert(grown_w * grown_h <= 0x4_0000_0000u128 * 0x4_0000_0000u128) by (nonlinear_arith)
                    requires
                        grown_w <= 0x4_0000_0000u128,
                        grown_h <= 0x4_0000_0000u128,
                ;
                grown_w * grown_h <= u32::MAX as u128
            },
            None => {
                let wide_w = w as u128 + 130;
                let wide_h = h as u128 + 130;
                assert(wide_w * wide_h <= 0x4_0000_0000u128 * 0x4_0000_0000u128) by (nonlinear_arith)
                    requires
                        wide_w <= 0x4_0000_0000u128,
                        wide_h <= 0x4_0000_0000u128,
                ;
                (w + 2 <= 128 && h + 2 <= 128) || wide_w * wide_h <= u32::MAX as u128
            },
        }
    }

    /// Takes the atlas of `size` out of the map, or makes a fresh one.
    fn take_atlas(&mut self, size: u32) -> (r: Result<FontTextureAtlas<T>, Error>)
        requires
            old(self).wf(),
        ensures
            final(self).wf(),
            final(self).atlases() == old(self).atlases().remove(size),
            r is Ok,
            r matches Ok(a) ==> if old(self).atlases().contains_key(size) {
                a == old(self).atlases()[size]
            } else {
                fresh_atlas(a)
            },
    {
        let fresh = FontTextureAtlas::new()?;
        let taken = self.font_map.remove(&size);
        assert forall|s: u32| #[trigger] self.atlases().contains_key(s) implies {
            &&& self.atlases()[s].wf()
            &&& self.atlases()[s].atlas_image().spec_width() >= 128
            &&& self.atlases()[s].atlas_image().spec_height() >= 128
        } by {
            assert(old(self).atlases().contains_key(s));
        }
        match taken {
            Some(atlas) => Ok(atlas),
            None => Ok(fresh),
        }
    }

    /// Where character `c` lies in the atlas of `size`; a character not there yet is first
    /// packed into it from `glyph`, its bitmap rasterized at that size.
    pub fn get_char(&mut self, c: char, size: u32, glyph: &GlyphBitmap) -> (r: Result<
        CharParams,
        Error,
    >)
        requires
            old(self).wf(),
            glyph.well_sized(),
            old(self).can_take(c, size, glyph),
        ensures
            final(self).wf(),
            final(self).atlases().dom() == old(self).atlases().dom().insert(size),
            forall|s: u32| #[trigger]
                old(self).atlases().contains_key(s) && s != size ==> final(self).atlases()[s]
                    == old(self).atlases()[s],
            old(self).atlases().contains_key(size) && old(self).atlases()[size].chars().contains_key(
                char_key(c),
            ) ==> {
                &&& r == Ok::<CharParams, Error>(old(self).atlases()[size].chars()[char_key(c)])
                &&& final(self).atlases()[size] == old(self).atlases()[size]
            },
            !(old(self).atlases().contains_key(size) && old(self).atlases()[size].chars().contains_key(
                char_key(c),
            )) ==> {
                &&& final(self).atlases()[size].texture_spec().is_none()
                &&& (old(self).atlases().contains_key(size) ==> final(self).atlases()[size].keeps_glyphs_of(
                    old(self).atlases()[size],
                ))
                &&& (r matches Ok(p) ==> {
                    &&& final(self).atlases()[size].chars()[char_key(c)] == p
                    &&& final(self).atlases()[size].atlas_image().holds(
                        p,
                        FontTextureImage::bitmap_content(glyph),
                    )
                    &&& p.w == glyph.width
                    &&& p.h == glyph.height
                })
                &&& (r matches Err(e) ==> e matches Error::FailedToCreateFontTextureImage(message)
                    && message@ == "Resizing did not work"@)
            },
            r matches Ok(p) ==> {
                &&& final(self).atlases()[size].chars().contains_key(char_key(c))
                &&& final(self).atlases()[size].chars()[char_key(c)] == p
            },
            !old(self).atlases().contains_key(size) ==> r is Ok,
            !old(self).atlases().contains_key(size) ==> {
                &&& final(self).atlases()[size].atlas_image().spec_width() >= 128
                &&& final(self).atlases()[size].atlas_image().spec_height() >= 128
                &&& (final(self).atlases()[size].atlas_image().spec_width() == 128 && final(self).atlases()[size].atlas_image().spec_height() == 128 || final(self).atlases()[size].atlas_image().spec_width() == 128 + glyph.width + 2
                    * FontTextureImage::OFFSET && final(self).atlases()[size].atlas_image().spec_height()
                    == 128 + glyph.height + 2 * FontTextureImage::OFFSET)
                &&& final(self).atlases()[size].chars() == Map::<u32, CharParams>::empty().insert(
                    char_key(c),
                    r->Ok_0,
                )
            },
            old(self).atlases().contains_key(size) ==> {
                &&& (final(self).atlases()[size].grown_from(
                    old(self).atlases()[size],
                    glyph.width as int,
                    glyph.height as int,
                ) || (final(self).atlases()[size].atlas_image().spec_width() == old(self).atlases()[size].atlas_image().spec_width() && final(self).atlases()[size].atlas_image().spec_height() == old(self).atlases()[size].atlas_image().spec_height()))
                &&& final(self).atlases()[size].atlas_image().spec_width() >= old(self).atlases()[size].atlas_image().spec_width()
                &&& final(self).atlases()[size].atlas_image().spec_height() >= old(self).atlases()[size].atlas_image().spec_height()
            },
            old(self).atlases().contains_key(size) && !old(self).atlases()[size].chars().contains_key(
                char_key(c),
            ) ==> {
                &&& (r is Ok ==> final(self).atlases()[size].chars().dom() == old(self).atlases()[size].chars().dom().insert(char_key(c)))
                &&& (r is Err ==> final(self).atlases()[size].chars().dom() == old(self).atlases()[size].chars().dom())
                &&& (old(self).atlases()[size].atlas_image().fits_current_line(
                    glyph.width as int,
                    glyph.height as int,
                ) || old(self).atlases()[size].atlas_image().fits_new_line(
                    glyph.width as int,
                    glyph.height as int,
                ) ==> {
                    &&& final(self).atlases()[size].chars() == old(self).atlases()[size].chars().insert(
                        char_key(c),
                        r->Ok_0,
                    )
                    &&& final(self).atlases()[size].atlas_image().packed(
                        old(self).atlases()[size].atlas_image(),
                        glyph.width as int,
                        glyph.height as int,
                        FontTextureImage::bitmap_content(glyph),
                        Some(r->Ok_0),
                    )
                })
            },
            old(self).atlases().contains_key(size) && !old(self).atlases()[size].chars().contains_key(
                char_key(c),
            ) && !old(self).atlases()[size].atlas_image().fits_current_line(
                glyph.width as int,
                glyph.height as int,
            ) && !old(self).atlases()[size].atlas_image().fits_new_line(
                glyph.width as int,
                glyph.height as int,
            ) ==> {
                &&& (r is Ok ==> final(self).atlases()[size].grown_from(
                    old(self).atlases()[size],
                    glyph.width as int,
                    glyph.height as int,
                ))
                &&& ((exists|line: int| #[trigger]
                    old(self).atlases()[size].stacks_within(
                        line,
                        old(self).atlases()[size].atlas_image().spec_height() as int,
                    )) ==> r is Ok)
            },
            old(self).atlases().contains_key(size) && (old(self).atlases()[size].atlas_image().fits_current_line(
                glyph.width as int,
                glyph.height as int,
            ) || old(self).atlases()[size].atlas_image().fits_new_line(
                glyph.width as int,
                glyph.height as int,
            )) ==> r is Ok,
    {
        let mut atlas = self.take_atlas(size)?;
        proof {
            if !old(self).atlases().contains_key(size) {
                assert(atlas.chars().len() == 0);
                assert(atlas.stacks_within(0, atlas.atlas_image().spec_height() as int));
            }
        }
        let r = atlas.get_char_or_insert(c, glyph);
        self.font_map.insert(size, atlas);
        proof {
            if !old(self).atlases().contains_key(size) {
                assert(self.atlases()[size].chars() =~= Map::<u32, CharParams>::empty().insert(
                    char_key(c),
                    r->Ok_0,
                ));
            }
        }
        r
    }

    /// The atlas of `size`, made fresh where there was none.
    pub fn get_atlas(&mut self, size: u32) -> (r: Result<&FontTextureAtlas<T>, Error>)
        requires
            old(self).wf(),
        ensures
            final(self).wf(),
            final(self).atlases().dom() == old(self).atlases().dom().insert(size),
            forall|s: u32| #[trigger]
                old(self).atlases().contains_key(s) ==> final(self).atlases()[s]
                    == old(self).atlases()[s],
            !old(self).atlases().contains_key(size) ==> fresh_atlas(final(self).atlases()[size]),
            r matches Ok(a) && *a == final(self).atlases()[size],
    {
        let atlas = self.take_atlas(size)?;
        self.font_map.insert(size, atlas);
        match self.font_map.get(&size) {
            Some(atlas) => Ok(atlas),
            None => Err(Error::FailedToCreateFontTexture("No font texture atlas".to_owned())),
        }
    }

    /// Where `c` lies in the atlas of `size`, if it holds it.
    fn lookup(&self, size: u32, c: char) -> (r: Option<CharParams>)
        ensures
            r == (if holds_char(*self, size, c) {
                Some(self.atlases()[size].chars()[char_key(c)])
            } else {
                None
            }),
    {
        match self.font_map.get(&size) {
            Some(atlas) => atlas.get_char(c),
            None => None,
        }
    }

    /// Tries to pack `glyph`, the bitmap of `c` at `size`, where the atlas can take it; gives
    /// back `None` where the character is held after, else why not.
    fn try_pack(&mut self, size: u32, c: char, glyph: &GlyphBitmap) -> (outcome: Option<
        Refusal,
    >)
        requires
            old(self).wf(),
        ensures
            pack_step(*old(self), *final(self), size, c, *glyph, outcome),
    {
        if self.can_take_glyph(c, size, glyph) {
            let got = self.get_char(c, size, glyph);
            match got {
                Ok(_) => {
                    proof {
                        if holds_char(*old(self), size, c) {
                            assert(self.atlases() =~= old(self).atlases());
                        }
                        if old(self).atlases().contains_key(size) {
                            assert(self.atlases()[size].chars().dom() =~= old(self).atlases()[size].chars().dom().insert(char_key(c)));
                        } else {
                            assert(self.atlases()[size].chars().dom() =~= Set::<u32>::empty().insert(
                                char_key(c),
                            ));
                        }
                        assert(self.atlases().dom() =~= old(self).atlases().dom() || self.atlases().dom()
                            =~= old(self).atlases().dom().insert(size));
                    }
                    None
                },
                Err(_) => {
                    proof {
                        assert(self.atlases().dom() =~= old(self).atlases().dom());
                    }
                    Some(Refusal::NoRoom)
                },
            }
        } else if glyph.is_well_sized() {
            Some(Refusal::TooLarge)
        } else {
            Some(Refusal::BadBitmap)
        }
    }

    /// The rectangles of a text laid out at `size`. First every bitmap of `glyphs` (the
    /// characters of the text, each with its bitmap at that size) is tried in turn, and packed
    /// where the atlas can take it; then each character of `parents` (the characters behind
    /// the glyphs laid out, in order) is looked up, and one not held is tried once more with
    /// its bitmap. A character the atlas does not hold then gives an empty rectangle at the
    /// origin.
    ///
    /// `trace` holds the atlases before each bitmap is tried and after the last, each try a
    /// `pack_step`; `lookups` holds them before each look up and after the last, each a
    /// `lookup_step`. Where every character laid out was held after the first pass, the look
    /// ups change nothing and every rectangle is the one the final atlas holds.
    pub fn text_rects(&mut self, size: u32, glyphs: &Vec<(char, GlyphBitmap)>, parents: &Vec<
        char,
    >) -> (r: TextRects<T>)
        requires
            old(self).wf(),
        ensures
            final(self).wf(),
            final(self).atlases().dom() == old(self).atlases().dom().insert(size),
            forall|s: u32| #[trigger]
                old(self).atlases().contains_key(s) && s != size ==> final(self).atlases()[s]
                    == old(self).atlases()[s],
            r.outcomes@.len() == glyphs@.len(),
            r.trace@.len() == glyphs@.len() + 1,
            r.trace@[0] == *old(self),
            forall|i: int| #![trigger r.outcomes@[i]]
                0 <= i < glyphs@.len() ==> pack_step(
                    r.trace@[i],
                    r.trace@[i + 1],
                    size,
                    glyphs@[i].0,
                    glyphs@[i].1,
                    r.outcomes@[i],
                ),
            r.trace@.last().atlases().contains_key(size) ==> r.lookups@[0].atlases()
                == r.trace@.last().atlases(),
            !r.trace@.last().atlases().contains_key(size) ==> {
                &&& r.lookups@[0].atlases() == r.trace@.last().atlases().insert(
                    size,
                    r.lookups@[0].atlases()[size],
                )
                &&& fresh_atlas(r.lookups@[0].atlases()[size])
            },
            r.rects@.len() == parents@.len(),
            r.lookups@.len() == parents@.len() + 1,
            forall|i: int| #![trigger r.rects@[i]]
                0 <= i < parents@.len() ==> lookup_step(
                    r.lookups@[i],
                    r.lookups@[i + 1],
                    size,
                    parents@[i],
                    glyphs@,
                    r.rects@[i],
                ),
            final(self).atlases() == r.lookups@.last().atlases(),
            (forall|m: int| 0 <= m < parents@.len() ==> holds_char(r.lookups@[0], size, #[trigger] parents@[m]))
                ==> {
                &&& final(self).atlases() == r.lookups@[0].atlases()
                &&& forall|i: int|
                    0 <= i < parents@.len() ==> #[trigger] r.rects@[i] == rect_of(
                        final(self).atlases()[size],
                        parents@[i],
                    )
            },
            forall|i: int| #![trigger glyphs@[i]]
                0 <= i < glyphs@.len() ==> (r.outcomes@[i] is None ==> holds_char(
                    *final(self),
                    size,
                    glyphs@[i].0,
                )) && (r.outcomes@[i] is Some ==> refusal_holds(
                    *final(self),
                    size,
                    glyphs@[i].1,
                    r.outcomes@[i]->0,
                )),
            forall|k: u32| #[trigger]
                final(self).atlases()[size].chars().contains_key(k) ==> (old(self).atlases().contains_key(
                    size,
                ) && old(self).atlases()[size].chars().contains_key(k)) || exists|m: int|
                    0 <= m < glyphs@.len() && char_key(#[trigger] glyphs@[m].0) == k,
    {
        let mut outcomes: Vec<Option<Refusal>> = Vec::new();
        let ghost mut trace: Seq<FontAtlases<T>> = seq![*self];
        let mut i: usize = 0;
        while i < glyphs.len()
            invariant
                0 <= i <= glyphs@.len(),
                self.wf(),
                self.atlases().dom() == old(self).atlases().dom() || self.atlases().dom() == old(self).atlases().dom().insert(size),
                forall|s: u32| #[trigger]
                    old(self).atlases().contains_key(s) && s != size ==> self.atlases()[s]
                        == old(self).atlases()[s],
                outcomes@.len() == i,
                trace.len() == i + 1,
                trace[0] == *old(self),
                trace[i as int] == *self,
                forall|k: int| #![trigger outcomes@[k]]
                    0 <= k < i ==> pack_step(
                        trace[k],
                        trace[k + 1],
                        size,
                        glyphs@[k].0,
                        glyphs@[k].1,
                        outcomes@[k],
                    ),
                forall|k: int| #![trigger glyphs@[k]]
                    0 <= k < i ==> (outcomes@[k] is None ==> holds_char(*self, size, glyphs@[k].0))
                        && (outcomes@[k] is Some ==> refusal_holds(
                        *self,
                        size,
                        glyphs@[k].1,
                        outcomes@[k]->0,
                    )),
                forall|k: u32| #[trigger]
                    self.atlases().contains_key(size) && self.atlases()[size].chars().contains_key(k)
                        ==> (old(self).atlases().contains_key(size) && old(self).atlases()[size].chars().contains_key(k)) || exists|m: int|
                        0 <= m < i && char_key(#[trigger] glyphs@[m].0) == k,
            decreases glyphs.len() - i,
        {
            let c = glyphs[i].0;
            let glyph = &glyphs[i].1;
            let ghost pre = *self;
            let ghost pre_outcomes = outcomes@;
            let outcome = self.try_pack(size, c, glyph);
            proof {
                self.lemma_step_keeps(pre, size, c, *glyph, outcome, glyphs@, outcomes@);
            }
            outcomes.push(outcome);
            proof {
                trace = trace.push(*self);
                assert forall|k: u32| #[trigger]
                    self.atlases().contains_key(size) && self.atlases()[size].chars().contains_key(k)
                        implies (old(self).atlases().contains_key(size) && old(self).atlases()[size].chars().contains_key(k)) || exists|m: int|
                        0 <= m < i + 1 && char_key(#[trigger] glyphs@[m].0) == k by {
                    if k == char_key(c) {
                        assert(glyphs@[i as int].0 == c);
                    } else {
                        assert(pre.atlases().contains_key(size) && pre.atlases()[size].chars().contains_key(k));
                    }
                }
                assert forall|s: u32| #[trigger]
                    old(self).atlases().contains_key(s) && s != size implies self.atlases()[s]
                        == old(self).atlases()[s] by {
                    assert(pre.atlases().contains_key(s));
                }
                assert forall|k: int| #![trigger outcomes@[k]]
                    0 <= k < i + 1 implies pack_step(
                        trace[k],
                        trace[k + 1],
                        size,
                        glyphs@[k].0,
                        glyphs@[k].1,
                        outcomes@[k],
                    ) by {
                    if k < i {
                        assert(outcomes@[k] == pre_outcomes[k]);
                    }
                }
                assert forall|k: int| #![trigger glyphs@[k]]
                    0 <= k < i + 1 implies (outcomes@[k] is None ==> holds_char(
                        *self,
                        size,
                        glyphs@[k].0,
                    )) && (outcomes@[k] is Some ==> refusal_holds(
                        *self,
                        size,
                        glyphs@[k].1,
                        outcomes@[k]->0,
                    )) by {
                    if k < i {
                        assert(outcomes@[k] == pre_outcomes[k]);
                        assert(pre_outcomes[k] is None ==> holds_char(pre, size, glyphs@[k].0));
                        if pre_outcomes[k] is Some {
                            assert(refusal_holds(pre, size, glyphs@[k].1, pre_outcomes[k]->0));
                        }
                    }
                }
            }
            i = i + 1;
        }
        let ghost before_lookup = *self;
        let _ = self.get_atlas(size);
        let ghost first = *self;
        proof {
            assert(self.atlases().dom() =~= old(self).atlases().dom().insert(size));
            assert(grew_at(before_lookup, *self, size));
            self.lemma_grown_keeps(before_lookup, size, glyphs@, outcomes@);
            if before_lookup.atlases().contains_key(size) {
                assert(self.atlases() =~= before_lookup.atlases());
            } else {
                assert(self.atlases() =~= before_lookup.atlases().insert(size, self.atlases()[size]));
            }
            assert forall|s: u32| #[trigger]
                old(self).atlases().contains_key(s) && s != size implies self.atlases()[s]
                    == old(self).atlases()[s] by {
                assert(before_lookup.atlases().contains_key(s));
            }
            assert forall|k: u32| #[trigger]
                self.atlases()[size].chars().contains_key(k) implies (old(self).atlases().contains_key(
                    size,
                ) && old(self).atlases()[size].chars().contains_key(k)) || exists|m: int|
                    0 <= m < glyphs@.len() && char_key(#[trigger] glyphs@[m].0) == k by {
                assert(before_lookup.atlases().contains_key(size));
            }
        }
        let mut rects: Vec<CharParams> = Vec::new();
        let ghost mut lookups: Seq<FontAtlases<T>> = seq![*self];
        let ghost all_held = forall|m: int|
            0 <= m < parents@.len() ==> holds_char(first, size, #[trigger] parents@[m]);
        let mut j: usize = 0;
        while j < parents.len()
            invariant
                0 <= j <= parents@.len(),
                self.wf(),
                self.atlases().contains_key(size),
                self.atlases().dom() == old(self).atlases().dom().insert(size),
                forall|s: u32| #[trigger]
                    old(self).atlases().contains_key(s) && s != size ==> self.atlases()[s]
                        == old(self).atlases()[s],
                rects@.len() == j,
                lookups.len() == j + 1,
                lookups[0] == first,
                lookups[j as int] == *self,
                outcomes@.len() == glyphs@.len(),
                forall|k: int| #![trigger rects@[k]]
                    0 <= k < j ==> lookup_step(
                        lookups[k],
                        lookups[k + 1],
                        size,
                        parents@[k],
                        glyphs@,
                        rects@[k],
                    ),
                forall|k: int| #![trigger glyphs@[k]]
                    0 <= k < glyphs@.len() ==> (outcomes@[k] is None ==> holds_char(
                        *self,
                        size,
                        glyphs@[k].0,
                    )) && (outcomes@[k] is Some ==> refusal_holds(
                        *self,
                        size,
                        glyphs@[k].1,
                        outcomes@[k]->0,
                    )),
                forall|k: u32| #[trigger]
                    self.atlases()[size].chars().contains_key(k) ==> (old(self).atlases().contains_key(size)
                        && old(self).atlases()[size].chars().contains_key(k)) || exists|m: int|
                        0 <= m < glyphs@.len() && char_key(#[trigger] glyphs@[m].0) == k,
                all_held == forall|m: int|
                    0 <= m < parents@.len() ==> holds_char(first, size, #[trigger] parents@[m]),
                all_held ==> {
                    &&& self.atlases() == first.atlases()
                    &&& forall|k: int|
                        0 <= k < j ==> #[trigger] rects@[k] == rect_of(first.atlases()[size], parents@[k])
                },
            decreases parents.len() - j,
        {
            let c = parents[j];
            let ghost pre = *self;
            let ghost pre_rects = rects@;
            let rect = match self.lookup(size, c) {
                Some(params) => params,
                None => match glyph_index(glyphs, c) {
                    Some(k) => {
                        let outcome = self.try_pack(size, c, &glyphs[k].1);
                        proof {
                            self.lemma_step_keeps(pre, size, c, glyphs@[k as int].1, outcome, glyphs@, outcomes@);
                            assert(glyphs@[k as int].0 == c);
                        }
                        let found = self.lookup(size, c);
                        let rect = match outcome {
                            None => match found {
                                Some(params) => params,
                                None => CharParams { x: 0, y: 0, w: 0, h: 0 },
                            },
                            Some(_) => CharParams { x: 0, y: 0, w: 0, h: 0 },
                        };
                        proof {
                            assert(pack_step(pre, *self, size, c, glyphs@[first_glyph(glyphs@, c)].1, outcome)
                                && rect == (if outcome is None {
                                self.atlases()[size].chars()[char_key(c)]
                            } else {
                                CharParams { x: 0, y: 0, w: 0, h: 0 }
                            }));
                            assert forall|kk: u32| #[trigger]
                                self.atlases()[size].chars().contains_key(kk) implies (old(self).atlases().contains_key(size)
                                    && old(self).atlases()[size].chars().contains_key(kk)) || exists|m: int|
                                    0 <= m < glyphs@.len() && char_key(#[trigger] glyphs@[m].0) == kk by {
                                if kk != char_key(c) {
                                    assert(pre.atlases()[size].chars().contains_key(kk));
                                }
                            }
                            assert forall|s: u32| #[trigger]
                                old(self).atlases().contains_key(s) && s != size implies self.atlases()[s]
                                    == old(self).atlases()[s] by {
                                assert(pre.atlases().contains_key(s));
                            }
                            assert(self.atlases().dom() =~= old(self).atlases().dom().insert(size));
                        }
                        rect
                    },
                    None => CharParams { x: 0, y: 0, w: 0, h: 0 },
                },
            };
            rects.push(rect);
            proof {
                lookups = lookups.push(*self);
                assert(lookup_step(pre, *self, size, c, glyphs@, rect));
                assert forall|k: int| #![trigger rects@[k]]
                    0 <= k < j + 1 implies lookup_step(
                        lookups[k],
                        lookups[k + 1],
                        size,
                        parents@[k],
                        glyphs@,
                        rects@[k],
                    ) by {
                    if k < j {
                        assert(rects@[k] == pre_rects[k]);
                    }
                }
                if all_held {
                    assert(holds_char(first, size, parents@[j as int]));
                    assert forall|k: int|
                        0 <= k < j + 1 implies #[trigger] rects@[k] == rect_of(first.atlases()[size], parents@[k]) by {
                        if k < j {
                            assert(rects@[k] == pre_rects[k]);
                        }
                    }
                }
            }
            j = j + 1;
        }
        TextRects { rects, outcomes, trace: Ghost(trace), lookups: Ghost(lookups) }
    }

    /// After a try to pack, what was held stays held, and every reason of a refusal still
    /// holds.
    proof fn lemma_step_keeps(
        &self,
        before: Self,
        size: u32,
        c: char,
        glyph: GlyphBitmap,
        outcome: Option<Refusal>,
        glyphs: Seq<(char, GlyphBitmap)>,
        outcomes: Seq<Option<Refusal>>,
    )
        requires
            before.wf(),
            pack_step(before, *self, size, c, glyph, outcome),
        ensures
            outcome is None ==> holds_char(*self, size, c),
            outcome is Some ==> refusal_holds(*self, size, glyph, outcome->0),
            forall|k: int| #![trigger outcomes[k]]
                0 <= k < outcomes.len() && k < glyphs.len() && outcomes[k] is Some && refusal_holds(
                    before,
                    size,
                    glyphs[k].1,
                    outcomes[k]->0,
                ) ==> refusal_holds(*self, size, glyphs[k].1, outcomes[k]->0),
            forall|k: int| #![trigger glyphs[k]]
                0 <= k < glyphs.len() && holds_char(before, size, glyphs[k].0) ==> holds_char(
                    *self,
                    size,
                    glyphs[k].0,
                ),
    {
        if self.atlases().contains_key(size) {
            lemma_step_grew(before, *self, size, c, glyph, outcome);
            lemma_grew_keeps_all(before, *self, size, glyphs, outcomes);
        }
        if outcome == Some(Refusal::NoRoom) {
            let a = before.atlases()[size];
            if !(exists|k1: u32, k2: u32|
                k1 != k2 && #[trigger] a.chars().contains_key(k1) && #[trigger] a.chars().contains_key(
                    k2,
                )) {
                crate::texture_atlas::lemma_few_chars_stack(a);
            }
            let (k1, k2) = choose|k1: u32, k2: u32|
                k1 != k2 && #[trigger] a.chars().contains_key(k1) && #[trigger] a.chars().contains_key(
                    k2,
                );
            assert(self.atlases()[size].chars().contains_key(k1));
            assert(self.atlases()[size].chars().contains_key(k2));
        }
    }

    /// Growing the atlas of `size` keeps what was held, and every reason of a refusal.
    proof fn lemma_grown_keeps(
        &self,
        before: Self,
        size: u32,
        glyphs: Seq<(char, GlyphBitmap)>,
        outcomes: Seq<Option<Refusal>>,
    )
        requires
            grew_at(before, *self, size),
        ensures
            forall|k: int| #![trigger outcomes[k]]
                0 <= k < outcomes.len() && k < glyphs.len() && outcomes[k] is Some && refusal_holds(
                    before,
                    size,
                    glyphs[k].1,
                    outcomes[k]->0,
                ) ==> refusal_holds(*self, size, glyphs[k].1, outcomes[k]->0),
            forall|k: int| #![trigger glyphs[k]]
                0 <= k < glyphs.len() && holds_char(before, size, glyphs[k].0) ==> holds_char(
                    *self,
                    size,
                    glyphs[k].0,
                ),
    {
        lemma_grew_keeps_all(before, *self, size, glyphs, outcomes);
    }

    /// What a texture of the atlas of `size` (made fresh where there was none) is to come
    /// from: the texture stored since its last change, or, where there is none, its image, to
    /// make a texture of and store.
    pub fn texture_source(&mut self, size: u32) -> (r: Result<TextureSource<'_, T>, Error>)
        requires
            old(self).wf(),
        ensures
            final(self).wf(),
            final(self).atlases().dom() == old(self).atlases().dom().insert(size),
            forall|s: u32| #[trigger]
                old(self).atlases().contains_key(s) ==> final(self).atlases()[s]
                    == old(self).atlases()[s],
            !old(self).atlases().contains_key(size) ==> fresh_atlas(final(self).atlases()[size]),
            r is Ok,
            r matches Ok(source) ==> match source {
                TextureSource::Cached(t) => final(self).atlases()[size].texture_spec() == Some(*t),
                TextureSource::Image(img) => {
                    &&& final(self).atlases()[size].texture_spec().is_none()
                    &&& *img == final(self).atlases()[size].atlas_image()
                },
            },
    {
        let atlas = self.get_atlas(size)?;
        match atlas.cached_texture() {
            Some(texture) => Ok(TextureSource::Cached(texture)),
            None => Ok(TextureSource::Image(atlas.get_image())),
        }
    }

    /// Keeps `texture` as the texture made of the atlas of `size`, which must exist.
    pub fn store_texture(&mut self, size: u32, texture: T)
        requires
            old(self).wf(),
        ensures
            final(self).wf(),
            final(self).atlases().dom() == old(self).atlases().dom(),
            forall|s: u32| #[trigger]
                old(self).atlases().contains_key(s) && s != size ==> final(self).atlases()[s]
                    == old(self).atlases()[s],
            old(self).atlases().contains_key(size) ==> {
                &&& final(self).atlases()[size].texture_spec() == Some(texture)
                &&& final(self).atlases()[size].chars() == old(self).atlases()[size].chars()
                &&& final(self).atlases()[size].atlas_image() == old(self).atlases()[size].atlas_image()
            },
    {
        match self.font_map.remove(&size) {
            Some(mut atlas) => {
                assert(old(self).atlases().contains_key(size));
                atlas.store_texture(texture);
                self.font_map.insert(size, atlas);
                assert forall|s: u32| #[trigger] self.atlases().contains_key(s) implies self.atlases()[s].wf() by {
                    if s != size {
                        assert(old(self).atlases().contains_key(s));
                    }
                }
            },
            None => {
                assert forall|s: u32| #[trigger] self.atlases().contains_key(s) implies self.atlases()[s].wf() by {
                    assert(old(self).atlases().contains_key(s));
                }
                assert(self.atlases().dom() =~= old(self).atlases().dom());
            },
        }
    }
}

} // verus!
