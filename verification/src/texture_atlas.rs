use vstd::prelude::*;

use std::collections::HashMap;

use vstd::std_specs::iter::IteratorSpec;

use crate::error::Error;
use crate::font_atlas::{
    disjoint, lemma_packed_disjoint, lemma_packed_keeps, lemma_packed_new, CharParams,
    FontTextureImage, GlyphBitmap,
};

verus! {

broadcast use vstd::std_specs::hash::group_hash_axioms;

/// The key under which a character is kept in an atlas: its code point.
pub open spec fn char_key(c: char) -> u32 {
    c as u32
}

/// No two characters of the map share a pixel.
pub open spec fn pairwise_disjoint(m: Map<u32, CharParams>) -> bool {
    forall|k1: u32, k2: u32|
        #![trigger m[k1], m[k2]]
        m.contains_key(k1) && m.contains_key(k2) && k1 != k2 ==> disjoint(m[k1], m[k2])
}

/// The keys of a map, each once, in the order in which the map hands them out.
fn map_keys(m: &HashMap<u32, CharParams>) -> (keys: Vec<u32>)
    ensures
        keys@.no_duplicates(),
        forall|k: u32| m@.contains_key(k) <==> keys@.contains(k),
{
    let mut keys: Vec<u32> = Vec::new();
    for (k, _v) in it: m.iter()
        invariant
            keys@.len() == it.index(),
            forall|i: int| 0 <= i < it.index() ==> keys@[i] == *it.seq()[i].0,
            it.seq() == m.iter().remaining(),
            it.seq().no_duplicates(),
    {
        keys.push(*k);
    }
    proof {
        let s = m.iter().remaining();
        assert forall|i: int, j: int|
            0 <= i < keys@.len() && 0 <= j < keys@.len() && i != j implies keys@[i] != keys@[j] by {
            assert(m@.contains_key(*s[i].0) && m@[*s[i].0] == *s[i].1);
            assert(m@.contains_key(*s[j].0) && m@[*s[j].0] == *s[j].1);
            if keys@[i] == keys@[j] {
                assert(s[i] == s[j]);
            }
        }
        assert forall|k: u32| m@.contains_key(k) implies keys@.contains(k) by {
            assert(s.contains((&k, &m@[k])));
            let i = choose|i: int| 0 <= i < s.len() && s[i] == (&k, &m@[k]);
            assert(keys@[i] == k);
        }
        assert forall|k: u32| keys@.contains(k) implies m@.contains_key(k) by {
            let i = choose|i: int| 0 <= i < keys@.len() && keys@[i] == k;
            assert(m@.contains_key(*s[i].0));
        }
    }
    keys
}

/// The characters of one font size, packed into one grey image, and the texture last made of
/// that image (of whatever type the renderer uses), which is dropped whenever a character is
/// added.
pub struct FontTextureAtlas<T> {
    char_map: HashMap<u32, CharParams>,
    image: FontTextureImage,
    texture: Option<T>,
}

impl<T> FontTextureAtlas<T> {
    /// The characters in the atlas, by code point, and where each lies in the image.
    pub closed spec fn chars(&self) -> Map<u32, CharParams> {
        self.char_map@
    }

    /// The image that the characters are packed into.
    pub closed spec fn atlas_image(&self) -> FontTextureImage {
        self.image
    }

    /// The texture made of the image, if one was stored since the last change.
    pub closed spec fn texture_spec(&self) -> Option<T> {
        self.texture
    }

    /// The image is well formed, every character lies inside it, behind its cursor, and no
    /// two characters share a pixel.
    pub closed spec fn wf(&self) -> bool {
        &&& self.image.wf()
        &&& forall|k: u32| #[trigger]
            self.char_map@.contains_key(k) ==> {
                &&& self.image.rect_in_bounds(self.char_map@[k])
                &&& self.image.behind_cursor(self.char_map@[k])
            }
        &&& pairwise_disjoint(self.char_map@)
    }

    /// The image of a well-formed atlas is well formed.
    pub proof fn lemma_image_wf(&self)
        requires
            self.wf(),
        ensures
            self.atlas_image().wf(),
    {
    }

    /// Every character of `old` is still in `self`, with the same size and the same pixels
    /// (though perhaps elsewhere in the image).
    pub open spec fn keeps_glyphs_of(&self, old: Self) -> bool {
        forall|k: u32| #[trigger]
            old.chars().contains_key(k) ==> {
                &&& self.chars().contains_key(k)
                &&& self.atlas_image().same_glyph(self.chars()[k], old.atlas_image(), old.chars()[k])
            }
    }

    /// The image that would take the place of a full one when a character `w` by `h` does
    /// not fit can be measured in `u32`.
    pub open spec fn can_grow_for(&self, w: int, h: int) -> bool {
        (w + self.atlas_image().spec_width() + 2 * FontTextureImage::OFFSET) * (h
            + self.atlas_image().spec_height() + 2 * FontTextureImage::OFFSET) <= u32::MAX
    }

    /// An empty atlas over a blank image 128 by 128 pixels.
    pub fn new() -> (r: Result<Self, Error>)
        ensures
            r matches Ok(atlas) && {
                &&& atlas.wf()
                &&& atlas.chars() == Map::<u32, CharParams>::empty()
                &&& atlas.atlas_image().spec_width() == 128
                &&& atlas.atlas_image().spec_height() == 128
                &&& atlas.atlas_image().cursor_x() == 0
                &&& atlas.atlas_image().cursor_y() == 0
                &&& atlas.atlas_image().spec_line_height() == 0
                &&& atlas.texture_spec().is_none()
            },
    {
        let image = match FontTextureImage::new(128, 128) {
            Some(image) => image,
            None => {
                return Err(
                    Error::FailedToCreateFontTextureImage(
                        "Failed to create font texture image".to_owned(),
                    ),
                );
            },
        };
        Ok(Self { char_map: HashMap::new(), image, texture: None })
    }

    /// Where character `c` lies in the image, if the atlas holds it.
    pub fn get_char(&self, c: char) -> (r: Option<CharParams>)
        ensures
            r == (if self.chars().contains_key(char_key(c)) {
                Some(self.chars()[char_key(c)])
            } else {
                None
            }),
    {
        let key = c as u32;
        match self.char_map.get(&key) {
            Some(params) => Some(*params),
            None => None,
        }
    }

    /// The image that the characters are packed into, for making a texture of it.
    pub fn get_image(&self) -> (r: &FontTextureImage)
        ensures
            *r == self.atlas_image(),
    {
        &self.image
    }

    /// The texture last stored, unless a character was added since.
    pub fn cached_texture(&self) -> (r: Option<&T>)
        ensures
            r.is_some() == self.texture_spec().is_some(),
            r matches Some(t) ==> *t == self.texture_spec()->0,
    {
        match &self.texture {
            Some(t) => Some(t),
            None => None,
        }
    }

    /// Keeps `texture` as the texture made of the current image.
    pub fn store_texture(&mut self, texture: T)
        ensures
            final(self).texture_spec() == Some(texture),
            final(self).chars() == old(self).chars(),
            final(self).atlas_image() == old(self).atlas_image(),
            final(self).wf() == old(self).wf(),
    {
        self.texture = Some(texture);
    }

    /// Every character, with its border, is at most `line` pixels tall, and a line of that
    /// height for each character fits in `height` pixels: put one per line, they all fit.
    pub open spec fn stacks_within(&self, line: int, height: int) -> bool {
        &&& forall|k: u32| #[trigger]
            self.chars().contains_key(k) ==> self.chars()[k].h + 2 * FontTextureImage::OFFSET
                <= line
        &&& self.chars().len() * line <= height
    }

    /// The image of `self` is `width` and `height` pixels, and a border, larger than that of
    /// `old`.
    pub open spec fn grown_from(&self, old: Self, width: int, height: int) -> bool {
        &&& self.atlas_image().spec_width() == old.atlas_image().spec_width() + width + 2
            * FontTextureImage::OFFSET
        &&& self.atlas_image().spec_height() == old.atlas_image().spec_height() + height + 2
            * FontTextureImage::OFFSET
    }

    /// Moves every character into a larger image, `width` and `height` pixels (and a border)
    /// larger than the current one, in the order the map hands them out. Where one of them
    /// does not fit there, nothing changes; where each could take a line of its own, all fit.
    fn resize_image(&mut self, width: u32, height: u32)
        requires
            old(self).wf(),
            old(self).can_grow_for(width as int, height as int),
        ensures
            final(self).wf(),
            final(self).chars().dom() == old(self).chars().dom(),
            final(self).keeps_glyphs_of(*old(self)),
            final(self).texture_spec() == old(self).texture_spec(),
            final(self).grown_from(*old(self), width as int, height as int) || (final(self).chars()
                == old(self).chars() && final(self).atlas_image() == old(self).atlas_image()),
            forall|line: int| #[trigger]
                old(self).stacks_within(
                    line,
                    old(self).atlas_image().spec_height() + height + 2 * FontTextureImage::OFFSET,
                ) ==> {
                    &&& final(self).grown_from(*old(self), width as int, height as int)
                    &&& final(self).atlas_image().cursor_y() + final(self).atlas_image().spec_line_height()
                        <= old(self).chars().len() * line
                },
    {
        proof {
            assert(self.image.spec_width() + 0 <= width + self.image.spec_width() + 2);
            assert(self.image.spec_height() + 0 <= height + self.image.spec_height() + 2);
            crate::font_atlas::lemma_grid_area_monotone(
                (width + self.image.spec_width() + 2) as int,
                1,
                (width + self.image.spec_width() + 2) as int,
                (height + self.image.spec_height() + 2) as int,
            );
            crate::font_atlas::lemma_grid_area_monotone(
                1,
                (height + self.image.spec_height() + 2) as int,
                (width + self.image.spec_width() + 2) as int,
                (height + self.image.spec_height() + 2) as int,
            );
        }
        let new_width = width + self.image.get_width() + FontTextureImage::OFFSET * 2;
        let new_height = height + self.image.get_height() + FontTextureImage::OFFSET * 2;
        let mut new_image = match FontTextureImage::new(new_width, new_height) {
            Some(image) => image,
            None => {
                return ;
            },
        };
        let keys = map_keys(&self.char_map);
        let ghost full_height = new_height as int;
        let ghost stack = exists|line: int| #[trigger] self.stacks_within(line, full_height);
        let ghost line: int = if stack {
            choose|line: int| #[trigger] self.stacks_within(line, full_height)
        } else {
            0
        };
        proof {
            assert(keys@.to_set() =~= self.chars().dom());
            keys@.unique_seq_to_set();
        }
        let mut new_map: HashMap<u32, CharParams> = HashMap::new();
        let mut i: usize = 0;
        while i < keys.len()
            invariant
                self.wf(),
                *self == *old(self),
                new_image.wf(),
                new_image.spec_width() == new_width,
                new_image.spec_height() == new_height,
                full_height == new_height,
                new_width == old(self).atlas_image().spec_width() + width + 2,
                new_height == old(self).atlas_image().spec_height() + height + 2,
                keys@.len() == self.chars().len(),
                stack == exists|l: int| #[trigger] self.stacks_within(l, full_height),
                stack ==> self.stacks_within(line, full_height),
                forall|l: int| #[trigger]
                    self.stacks_within(l, full_height) ==> new_image.cursor_y()
                        + new_image.spec_line_height() <= i * l,
                0 <= i <= keys@.len(),
                keys@.no_duplicates(),
                forall|k: u32| self.chars().contains_key(k) <==> keys@.contains(k),
                forall|k: u32| new_map@.contains_key(k) <==> keys@.take(i as int).contains(k),
                pairwise_disjoint(new_map@),
                forall|k: u32| #[trigger]
                    new_map@.contains_key(k) ==> {
                        &&& new_image.rect_in_bounds(new_map@[k])
                        &&& new_image.behind_cursor(new_map@[k])
                        &&& new_image.same_glyph(new_map@[k], self.atlas_image(), self.chars()[k])
                    },
            decreases keys@.len() - i,
        {
            let key = keys[i];
            assert(keys@.contains(key));
            let params = *self.char_map.get(&key).unwrap();
            let ghost before = new_image;
            let ghost content = FontTextureImage::region_content(self.image, params);
            let copied = new_image.copy_char(&self.image, &params);
            match copied {
                Some(new_params) => {
                    proof {
                        assert forall|l: int| #[trigger]
                            self.stacks_within(l, full_height) implies new_image.cursor_y()
                                + new_image.spec_line_height() <= (i + 1) * l by {
                            assert(self.chars().contains_key(key));
                            assert((i + 1) * l == i * l + l) by (nonlinear_arith);
                        }
                        lemma_packed_new(
                            new_image,
                            before,
                            params.w as int,
                            params.h as int,
                            content,
                            copied,
                        );
                        assert forall|k: u32| #[trigger]
                            new_map@.contains_key(k) implies {
                                &&& new_image.rect_in_bounds(new_map@[k])
                                &&& new_image.behind_cursor(new_map@[k])
                                &&& new_image.same_glyph(
                                    new_map@[k],
                                    self.atlas_image(),
                                    self.chars()[k],
                                )
                            } by {
                            lemma_packed_keeps(
                                new_image,
                                before,
                                params.w as int,
                                params.h as int,
                                content,
                                copied,
                                new_map@[k],
                            );
                        }
                        assert(new_image.same_glyph(new_params, self.atlas_image(), params)) by {
                            assert forall|a: int, b: int|
                                0 <= a < new_params.w && 0 <= b < new_params.h
                                    implies #[trigger] new_image.glyph_pixel(new_params, a, b)
                                    == self.atlas_image().glyph_pixel(params, a, b) by {
                                assert(new_image.glyph_pixel(new_params, a, b) == content(a, b));
                            }
                        }
                        assert forall|k: u32| #[trigger]
                            new_map@.contains_key(k) implies disjoint(new_params, new_map@[k]) && disjoint(
                            new_map@[k],
                            new_params,
                        ) by {
                            lemma_packed_disjoint(
                                new_image,
                                before,
                                params.w as int,
                                params.h as int,
                                content,
                                copied,
                                new_map@[k],
                            );
                        }
                        assert(!keys@.take(i as int).contains(key)) by {
                            if keys@.take(i as int).contains(key) {
                                let j = choose|j: int|
                                    0 <= j < i && keys@.take(i as int)[j] == key;
                                assert(keys@[j] == keys@[i as int]);
                            }
                        }
                    }
                    let ghost map_before = new_map@;
                    new_map.insert(key, new_params);
                    proof {
                        assert forall|k1: u32, k2: u32|
                            #![trigger new_map@[k1], new_map@[k2]]
                            new_map@.contains_key(k1) && new_map@.contains_key(k2) && k1 != k2
                                implies disjoint(new_map@[k1], new_map@[k2]) by {
                            if k1 != key && k2 != key {
                                assert(map_before.contains_key(k1) && map_before.contains_key(k2));
                                assert(disjoint(map_before[k1], map_before[k2]));
                            } else if k1 == key {
                                assert(map_before.contains_key(k2));
                            } else {
                                assert(map_before.contains_key(k1));
                            }
                        }
                        let prev = keys@.take(i as int);
                        let next = keys@.take(i + 1);
                        assert(next == prev.push(key));
                        assert forall|k: u32| new_map@.contains_key(k) <==> next.contains(k) by {
                            if k != key {
                                if next.contains(k) {
                                    let j = choose|j: int| 0 <= j < next.len() && next[j] == k;
                                    assert(prev[j] == k);
                                }
                            } else {
                                assert(next[i as int] == key);
                            }
                        }
                    }
                },
                None => {
                    proof {
                        if stack {
                            assert(self.chars().contains_key(key));
                            assert(self.atlas_image().rect_in_bounds(params));
                            assert((i + 1) * line <= keys@.len() * line) by (nonlinear_arith)
                                requires
                                    i + 1 <= keys@.len(),
                                    line >= 0,
                            ;
                            assert((i + 1) * line == i * line + line) by (nonlinear_arith);
                            assert(before.fits_new_line(params.w as int, params.h as int));
                        }
                        assert forall|l: int| #[trigger]
                            old(self).stacks_within(
                                l,
                                old(self).atlas_image().spec_height() + height + 2
                                    * FontTextureImage::OFFSET,
                            ) implies false by {
                            assert(self.stacks_within(l, full_height));
                        }
                    }
                    return ;
                },
            }
            i = i + 1;
        }
        proof {
            assert(keys@.take(keys@.len() as int) == keys@);
        }
        let ghost old_self = *self;
        self.char_map = new_map;
        self.image = new_image;
        proof {
            assert forall|k: u32| #[trigger]
                old_self.chars().contains_key(k) implies {
                    &&& self.chars().contains_key(k)
                    &&& self.atlas_image().same_glyph(
                        self.chars()[k],
                        old_self.atlas_image(),
                        old_self.chars()[k],
                    )
                } by {
                assert(new_map@.contains_key(k));
            }
            assert(self.chars().dom() =~= old_self.chars().dom());
        }
    }
}


/// An atlas holding fewer than two characters can always give each of them a line of its own.
pub proof fn lemma_few_chars_stack<T>(atlas: FontTextureAtlas<T>)
    requires
        atlas.wf(),
        !(exists|k1: u32, k2: u32|
            k1 != k2 && #[trigger] atlas.chars().contains_key(k1) && #[trigger] atlas.chars().contains_key(
                k2,
            )),
    ensures
        exists|line: int| #[trigger]
            atlas.stacks_within(line, atlas.atlas_image().spec_height() as int),
{
    if atlas.chars().dom() =~= Set::<u32>::empty() {
        assert(atlas.stacks_within(0, atlas.atlas_image().spec_height() as int));
    } else {
        let k = atlas.chars().dom().choose();
        assert(atlas.chars().dom() =~= set![k]) by {
            assert forall|k2: u32| atlas.chars().dom().contains(k2) implies k2 == k by {
                if k2 != k {
                    assert(atlas.chars().contains_key(k) && atlas.chars().contains_key(k2));
                }
            }
        }
        assert(atlas.chars().len() == 1);
        let line = atlas.chars()[k].h + 2 * FontTextureImage::OFFSET;
        assert(atlas.atlas_image().rect_in_bounds(atlas.chars()[k]));
        assert(atlas.stacks_within(line, atlas.atlas_image().spec_height() as int));
    }
}

/// In an atlas that its own operations built, every character lies inside the image, with
/// its border, and no two characters share a pixel.
pub proof fn law_chars_lie_apart<T>(atlas: FontTextureAtlas<T>)
    requires
        atlas.wf(),
    ensures
        pairwise_disjoint(atlas.chars()),
        forall|k: u32| #[trigger]
            atlas.chars().contains_key(k) ==> atlas.atlas_image().rect_in_bounds(atlas.chars()[k]),
{
}

/// Keeping glyphs carries over a sequence of changes: a character stays in the atlas with the
/// pixels it was first given, however many characters are added and however often the image
/// grows.
pub proof fn law_glyphs_kept_across_changes<T>(
    a: FontTextureAtlas<T>,
    b: FontTextureAtlas<T>,
    c: FontTextureAtlas<T>,
)
    requires
        b.keeps_glyphs_of(a),
        c.keeps_glyphs_of(b),
    ensures
        c.keeps_glyphs_of(a),
{
    assert forall|k: u32| #[trigger] a.chars().contains_key(k) implies {
        &&& c.chars().contains_key(k)
        &&& c.atlas_image().same_glyph(c.chars()[k], a.atlas_image(), a.chars()[k])
    } by {
        assert(b.chars().contains_key(k));
        let pc = c.chars()[k];
        let pb = b.chars()[k];
        let pa = a.chars()[k];
        assert forall|i: int, j: int| 0 <= i < pc.w && 0 <= j < pc.h implies #[trigger] c.atlas_image().glyph_pixel(
            pc,
            i,
            j,
        ) == a.atlas_image().glyph_pixel(pa, i, j) by {
            assert(c.atlas_image().glyph_pixel(pc, i, j) == b.atlas_image().glyph_pixel(pb, i, j));
            assert(b.atlas_image().glyph_pixel(pb, i, j) == a.atlas_image().glyph_pixel(pa, i, j));
        }
    }
}

impl<T> FontTextureAtlas<T> {
    /// Packs `glyph` into the image, first as it is and, where it does not fit, once more
    /// after moving every character into a larger image. Drops the stored texture.
    fn add_char_to_image(&mut self, glyph: &GlyphBitmap) -> (r: Result<CharParams, Error>)
        requires
            old(self).wf(),
            glyph.well_sized(),
            !old(self).atlas_image().fits_current_line(glyph.width as int, glyph.height as int)
                && !old(self).atlas_image().fits_new_line(glyph.width as int, glyph.height as int)
                ==> old(self).can_grow_for(glyph.width as int, glyph.height as int),
        ensures
            final(self).wf(),
            final(self).texture_spec().is_none(),
            final(self).chars().dom() == old(self).chars().dom(),
            final(self).keeps_glyphs_of(*old(self)),
            r matches Ok(p) ==> {
                &&& final(self).atlas_image().rect_in_bounds(p)
                &&& final(self).atlas_image().behind_cursor(p)
                &&& final(self).atlas_image().holds(p, FontTextureImage::bitmap_content(glyph))
                &&& p.w == glyph.width
                &&& p.h == glyph.height
                &&& forall|k: u32| #[trigger]
                    final(self).chars().contains_key(k) ==> disjoint(p, final(self).chars()[k])
                        && disjoint(final(self).chars()[k], p)
            },
            r matches Err(e) ==> e matches Error::FailedToCreateFontTextureImage(message)
                && message@ == "Resizing did not work"@,
            old(self).atlas_image().fits_current_line(glyph.width as int, glyph.height as int)
                || old(self).atlas_image().fits_new_line(glyph.width as int, glyph.height as int)
                ==> {
                &&& r is Ok
                &&& final(self).chars() == old(self).chars()
                &&& final(self).atlas_image().packed(
                    old(self).atlas_image(),
                    glyph.width as int,
                    glyph.height as int,
                    FontTextureImage::bitmap_content(glyph),
                    Some(r->Ok_0),
                )
            },
            !old(self).atlas_image().fits_current_line(glyph.width as int, glyph.height as int)
                && !old(self).atlas_image().fits_new_line(glyph.width as int, glyph.height as int)
                ==> {
                &&& (r is Ok ==> final(self).grown_from(
                    *old(self),
                    glyph.width as int,
                    glyph.height as int,
                ))
                &&& ((exists|line: int| #[trigger]
                    old(self).stacks_within(line, old(self).atlas_image().spec_height() as int))
                    ==> r is Ok)
            },
            r matches Ok(p) ==> final(self).atlas_image().last_packed(p),
            final(self).atlas_image().spec_width() >= old(self).atlas_image().spec_width(),
            final(self).atlas_image().spec_height() >= old(self).atlas_image().spec_height(),
            final(self).grown_from(*old(self), glyph.width as int, glyph.height as int) || (final(self).atlas_image().spec_width() == old(self).atlas_image().spec_width() && final(self).atlas_image().spec_height() == old(self).atlas_image().spec_height()),
    {
        self.texture = None;
        let ghost start = *self;
        let ghost content = FontTextureImage::bitmap_content(glyph);
        let first = self.image.add_char(glyph);
        proof {
            self.lemma_packed_keeps_all(start, glyph.width as int, glyph.height as int, content, first);
        }
        match first {
            Some(params) => {
                proof {
                    lemma_packed_new(
                        self.image,
                        start.image,
                        glyph.width as int,
                        glyph.height as int,
                        content,
                        first,
                    );
                    assert forall|k: u32| #[trigger]
                        self.chars().contains_key(k) implies disjoint(params, self.chars()[k])
                            && disjoint(self.chars()[k], params) by {
                        assert(start.char_map@.contains_key(k));
                        lemma_packed_disjoint(
                            self.image,
                            start.image,
                            glyph.width as int,
                            glyph.height as int,
                            content,
                            first,
                            self.chars()[k],
                        );
                    }
                    assert(self.atlas_image().packed(
                        start.atlas_image(),
                        glyph.width as int,
                        glyph.height as int,
                        content,
                        Some(params),
                    ));
                }
                Ok(params)
            },
            None => {
                proof {
                    if exists|line: int| #[trigger]
                        old(self).stacks_within(line, old(self).atlas_image().spec_height() as int) {
                        let line = choose|line: int| #[trigger]
                            old(self).stacks_within(line, old(self).atlas_image().spec_height() as int);
                        assert(start.chars() == old(self).chars());
                        assert(start.stacks_within(
                            line,
                            start.atlas_image().spec_height() + glyph.height + 2
                                * FontTextureImage::OFFSET,
                        ));
                    }
                }
                self.resize_image(glyph.width, glyph.height);
                let ghost grown = *self;
                let second = self.image.add_char(glyph);
                proof {
                    if exists|line: int| #[trigger]
                        old(self).stacks_within(line, old(self).atlas_image().spec_height() as int) {
                        let line = choose|line: int| #[trigger]
                            old(self).stacks_within(line, old(self).atlas_image().spec_height() as int);
                        assert(start.chars() == old(self).chars());
                        assert(start.stacks_within(
                            line,
                            start.atlas_image().spec_height() + glyph.height + 2
                                * FontTextureImage::OFFSET,
                        ));
                        assert(grown.atlas_image().fits_new_line(
                            glyph.width as int,
                            glyph.height as int,
                        ));
                        assert(second is Some);
                    }
                    if !grown.grown_from(start, glyph.width as int, glyph.height as int) {
                        assert(grown.atlas_image() == start.atlas_image());
                        assert(second is None);
                    }
                    self.lemma_packed_keeps_all(
                        grown,
                        glyph.width as int,
                        glyph.height as int,
                        content,
                        second,
                    );
                    assert forall|k: u32| #[trigger]
                        start.chars().contains_key(k) implies {
                            &&& self.chars().contains_key(k)
                            &&& self.atlas_image().same_glyph(
                                self.chars()[k],
                                start.atlas_image(),
                                start.chars()[k],
                            )
                        } by {
                        assert(grown.chars().contains_key(k));
                    }
                }
                match second {
                    Some(params) => {
                        proof {
                            lemma_packed_new(
                                self.image,
                                grown.image,
                                glyph.width as int,
                                glyph.height as int,
                                content,
                                second,
                            );
                            assert forall|k: u32| #[trigger]
                                self.chars().contains_key(k) implies disjoint(
                                params,
                                self.chars()[k],
                            ) && disjoint(self.chars()[k], params) by {
                                assert(grown.char_map@.contains_key(k));
                                lemma_packed_disjoint(
                                    self.image,
                                    grown.image,
                                    glyph.width as int,
                                    glyph.height as int,
                                    content,
                                    second,
                                    self.chars()[k],
                                );
                            }
                            assert(self.atlas_image().packed(
                                grown.atlas_image(),
                                glyph.width as int,
                                glyph.height as int,
                                content,
                                Some(params),
                            ));
                        }
                        Ok(params)
                    },
                    None => Err(
                        Error::FailedToCreateFontTextureImage("Resizing did not work".to_owned()),
                    ),
                }
            },
        }
    }

    /// After packing one character into the image, every character of the atlas is still
    /// where it was, with the same pixels, behind the cursor.
    proof fn lemma_packed_keeps_all(
        &self,
        before: Self,
        w: int,
        h: int,
        content: spec_fn(int, int) -> u8,
        r: Option<CharParams>,
    )
        requires
            before.wf(),
            self.chars() == before.chars(),
            self.texture_spec() == before.texture_spec(),
            self.atlas_image().wf(),
            0 <= w,
            0 <= h,
            self.atlas_image().packed(before.atlas_image(), w, h, content, r),
        ensures
            self.wf(),
            self.keeps_glyphs_of(before),
    {
        assert forall|k: u32| #[trigger]
            before.chars().contains_key(k) implies {
                &&& self.atlas_image().rect_in_bounds(self.chars()[k])
                &&& self.atlas_image().behind_cursor(self.chars()[k])
                &&& self.atlas_image().same_glyph(
                    self.chars()[k],
                    before.atlas_image(),
                    before.chars()[k],
                )
            } by {
            lemma_packed_keeps(self.image, before.image, w, h, content, r, before.char_map@[k]);
        }
    }

    /// Where character `c` lies in the image; a character the atlas does not hold yet is first
    /// packed into it from `glyph`, its rasterized bitmap, growing the image where it does not
    /// fit.
    ///
    /// Every character already in the atlas keeps its size and its pixels. Where the image is
    /// grown, they move to places that depend on the order in which the map hands them out.
    pub fn get_char_or_insert(&mut self, c: char, glyph: &GlyphBitmap) -> (r: Result<
        CharParams,
        Error,
    >)
        requires
            old(self).wf(),
            glyph.well_sized(),
            !old(self).chars().contains_key(char_key(c)) && !old(self).atlas_image().fits_current_line(
                glyph.width as int,
                glyph.height as int,
            ) && !old(self).atlas_image().fits_new_line(glyph.width as int, glyph.height as int)
                ==> old(self).can_grow_for(glyph.width as int, glyph.height as int),
        ensures
            final(self).wf(),
            old(self).chars().contains_key(char_key(c)) ==> {
                &&& r == Ok::<CharParams, Error>(old(self).chars()[char_key(c)])
                &&& *final(self) == *old(self)
            },
            !old(self).chars().contains_key(char_key(c)) ==> {
                &&& final(self).texture_spec().is_none()
                &&& final(self).keeps_glyphs_of(*old(self))
                &&& (r matches Ok(p) ==> {
                    &&& final(self).chars().dom() == old(self).chars().dom().insert(char_key(c))
                    &&& final(self).chars()[char_key(c)] == p
                    &&& final(self).atlas_image().holds(p, FontTextureImage::bitmap_content(glyph))
                    &&& p.w == glyph.width
                    &&& p.h == glyph.height
                })
                &&& (r matches Err(e) ==> {
                    &&& e matches Error::FailedToCreateFontTextureImage(message)
                        && message@ == "Resizing did not work"@
                    &&& final(self).chars().dom() == old(self).chars().dom()
                })
                &&& (r matches Ok(p) ==> final(self).atlas_image().last_packed(p))
                &&& final(self).atlas_image().spec_width() >= old(self).atlas_image().spec_width()
                &&& final(self).atlas_image().spec_height() >= old(self).atlas_image().spec_height()
                &&& (final(self).grown_from(*old(self), glyph.width as int, glyph.height as int)
                    || (final(self).atlas_image().spec_width() == old(self).atlas_image().spec_width()
                    && final(self).atlas_image().spec_height() == old(self).atlas_image().spec_height()))
                &&& (!old(self).atlas_image().fits_current_line(
                    glyph.width as int,
                    glyph.height as int,
                ) && !old(self).atlas_image().fits_new_line(glyph.width as int, glyph.height as int)
                    ==> {
                    &&& (r is Ok ==> final(self).grown_from(
                        *old(self),
                        glyph.width as int,
                        glyph.height as int,
                    ))
                    &&& ((exists|line: int| #[trigger]
                        old(self).stacks_within(line, old(self).atlas_image().spec_height() as int))
                        ==> r is Ok)
                })
                &&& (old(self).atlas_image().fits_current_line(
                    glyph.width as int,
                    glyph.height as int,
                ) || old(self).atlas_image().fits_new_line(glyph.width as int, glyph.height as int)
                    ==> {
                    &&& r is Ok
                    &&& final(self).chars() == old(self).chars().insert(char_key(c), r->Ok_0)
                    &&& final(self).atlas_image().packed(
                        old(self).atlas_image(),
                        glyph.width as int,
                        glyph.height as int,
                        FontTextureImage::bitmap_content(glyph),
                        Some(r->Ok_0),
                    )
                })
            },
    {
        let key = c as u32;
        match self.char_map.get(&key) {
            Some(params) => Ok(*params),
            None => {
                let ghost before = *self;
                let params = self.add_char_to_image(glyph)?;
                let ghost added = *self;
                self.char_map.insert(key, params);
                proof {
                    assert forall|k: u32| #[trigger]
                        self.char_map@.contains_key(k) implies {
                            &&& self.image.rect_in_bounds(self.char_map@[k])
                            &&& self.image.behind_cursor(self.char_map@[k])
                        } by {
                        if k != key {
                            assert(added.char_map@.contains_key(k));
                        }
                    }
                    assert forall|k1: u32, k2: u32|
                        #![trigger self.char_map@[k1], self.char_map@[k2]]
                        self.char_map@.contains_key(k1) && self.char_map@.contains_key(k2) && k1
                            != k2 implies disjoint(self.char_map@[k1], self.char_map@[k2]) by {
                        if k1 != key && k2 != key {
                            assert(added.char_map@.contains_key(k1));
                            assert(added.char_map@.contains_key(k2));
                            assert(disjoint(added.char_map@[k1], added.char_map@[k2]));
                        } else if k1 == key {
                            assert(added.chars().contains_key(k2));
                        } else {
                            assert(added.chars().contains_key(k1));
                        }
                    }
                    assert forall|k: u32| #[trigger]
                        before.chars().contains_key(k) implies {
                            &&& self.chars().contains_key(k)
                            &&& self.atlas_image().same_glyph(
                                self.chars()[k],
                                before.atlas_image(),
                                before.chars()[k],
                            )
                        } by {
                        assert(added.chars().contains_key(k));
                    }
                    assert(self.chars().dom() =~= before.chars().dom().insert(key));
                    assert(self.atlas_image() == added.atlas_image());
                    if added.chars() == before.chars() {
                        assert(self.chars() =~= before.chars().insert(key, params));
                    }
                }
                Ok(params)
            },
        }
    }
}

} // verus!
