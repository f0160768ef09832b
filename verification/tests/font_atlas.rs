use rsml::font::{FontAtlases, Refusal, TextureSource};
use rsml::font_atlas::{CharParams, FontTextureImage, GlyphBitmap};
use rsml::texture_atlas::FontTextureAtlas;

fn glyph(width: u32, height: u32, seed: u8) -> GlyphBitmap {
    let mut data = Vec::new();
    for i in 0..(width * height) {
        data.push(seed.wrapping_add(i as u8));
    }
    GlyphBitmap { width, height, data }
}

fn pixel(img: &FontTextureImage, x: u32, y: u32) -> u8 {
    img.get_samples()[(y * img.get_width() + x) as usize]
}

fn assert_holds(img: &FontTextureImage, p: &CharParams, g: &GlyphBitmap) {
    assert_eq!(p.w, g.width);
    assert_eq!(p.h, g.height);
    for j in 0..g.height {
        for i in 0..g.width {
            assert_eq!(pixel(img, p.x + i, p.y + j), g.data[(j * g.width + i) as usize]);
        }
    }
}

#[test]
fn new_image_is_blank() {
    let img = FontTextureImage::new(7, 5).unwrap();
    assert_eq!(img.get_width(), 7);
    assert_eq!(img.get_height(), 5);
    assert_eq!(img.get_samples().len(), 35);
    assert!(img.get_samples().iter().all(|v| *v == 0));
}

#[test]
fn add_char_packs_line_by_line() {
    let mut img = FontTextureImage::new(10, 8).unwrap();
    let a = GlyphBitmap { width: 2, height: 2, data: vec![1, 2, 3, 4] };
    let pa = img.add_char(&a).unwrap();
    assert_eq!(pa, CharParams { x: 1, y: 1, w: 2, h: 2 });
    assert_eq!(pixel(&img, 1, 1), 1);
    assert_eq!(pixel(&img, 2, 1), 2);
    assert_eq!(pixel(&img, 1, 2), 3);
    assert_eq!(pixel(&img, 2, 2), 4);
    // The border stays blank.
    assert_eq!(pixel(&img, 0, 0), 0);
    assert_eq!(pixel(&img, 3, 3), 0);

    let b = GlyphBitmap { width: 3, height: 1, data: vec![5, 6, 7] };
    let pb = img.add_char(&b).unwrap();
    assert_eq!(pb, CharParams { x: 5, y: 1, w: 3, h: 1 });
    assert_holds(&img, &pb, &b);

    // Only one column is left in the first line: the next character starts a new line
    // below the tallest one (4 pixels with the border).
    let c = GlyphBitmap { width: 4, height: 1, data: vec![8, 9, 10, 11] };
    let pc = img.add_char(&c).unwrap();
    assert_eq!(pc, CharParams { x: 1, y: 5, w: 4, h: 1 });
    assert_holds(&img, &pc, &c);
    assert_holds(&img, &pa, &a);
    assert_holds(&img, &pb, &b);
}

#[test]
fn add_char_refuses_what_does_not_fit() {
    let mut img = FontTextureImage::new(10, 8).unwrap();
    let big = glyph(9, 1, 1);
    assert_eq!(img.add_char(&big), None);
    assert!(img.get_samples().iter().all(|v| *v == 0));
    let tall = glyph(1, 7, 1);
    assert_eq!(img.add_char(&tall), None);
    // Exactly the full image with its border fits.
    let full = glyph(8, 6, 1);
    assert_eq!(img.add_char(&full), Some(CharParams { x: 1, y: 1, w: 8, h: 6 }));
    assert_eq!(img.add_char(&glyph(0, 0, 0)), None);
}

#[test]
fn empty_glyph_takes_only_its_border() {
    let mut img = FontTextureImage::new(4, 4).unwrap();
    assert_eq!(img.add_char(&glyph(0, 0, 0)), Some(CharParams { x: 1, y: 1, w: 0, h: 0 }));
    assert_eq!(img.add_char(&glyph(0, 0, 0)), Some(CharParams { x: 3, y: 1, w: 0, h: 0 }));
    assert_eq!(img.add_char(&glyph(0, 0, 0)), Some(CharParams { x: 1, y: 3, w: 0, h: 0 }));
}

#[test]
fn copy_char_moves_pixels() {
    let mut src = FontTextureImage::new(10, 10).unwrap();
    let g = glyph(3, 2, 40);
    src.add_char(&glyph(1, 1, 9)).unwrap();
    let p = src.add_char(&g).unwrap();
    assert_eq!(p, CharParams { x: 4, y: 1, w: 3, h: 2 });

    let mut dst = FontTextureImage::new(6, 6).unwrap();
    let q = dst.copy_char(&src, &p).unwrap();
    assert_eq!(q, CharParams { x: 1, y: 1, w: 3, h: 2 });
    assert_holds(&dst, &q, &g);

    let mut tiny = FontTextureImage::new(4, 4).unwrap();
    assert_eq!(tiny.copy_char(&src, &p), None);
}

#[test]
fn atlas_inserts_and_looks_up() {
    let mut atlas = FontTextureAtlas::<u32>::new().unwrap();
    assert_eq!(atlas.get_char('a'), None);
    let ga = glyph(5, 7, 3);
    let pa = atlas.get_char_or_insert('a', &ga).unwrap();
    assert_eq!(pa, CharParams { x: 1, y: 1, w: 5, h: 7 });
    assert_eq!(atlas.get_char('a'), Some(pa));
    assert_holds(atlas.get_image(), &pa, &ga);

    // A character already there is given back as it is; the bitmap is not used.
    let again = atlas.get_char_or_insert('a', &glyph(1, 1, 99)).unwrap();
    assert_eq!(again, pa);
    assert_holds(atlas.get_image(), &pa, &ga);

    let gb = glyph(2, 3, 50);
    let pb = atlas.get_char_or_insert('b', &gb).unwrap();
    assert_eq!(pb, CharParams { x: 8, y: 1, w: 2, h: 3 });
    assert_holds(atlas.get_image(), &pa, &ga);
    assert_holds(atlas.get_image(), &pb, &gb);
}

#[test]
fn atlas_grows_and_keeps_glyphs() {
    let mut atlas = FontTextureAtlas::<u32>::new().unwrap();
    let ga = glyph(100, 100, 1);
    let pa = atlas.get_char_or_insert('a', &ga).unwrap();
    assert_eq!(pa, CharParams { x: 1, y: 1, w: 100, h: 100 });
    assert_eq!(atlas.get_image().get_width(), 128);

    let gb = glyph(100, 100, 77);
    let pb = atlas.get_char_or_insert('b', &gb).unwrap();
    // The image grew by the glyph and a border in each direction.
    assert_eq!(atlas.get_image().get_width(), 230);
    assert_eq!(atlas.get_image().get_height(), 230);
    let pa2 = atlas.get_char('a').unwrap();
    assert_eq!(pa2, CharParams { x: 1, y: 1, w: 100, h: 100 });
    assert_eq!(pb, CharParams { x: 103, y: 1, w: 100, h: 100 });
    assert_holds(atlas.get_image(), &pa2, &ga);
    assert_holds(atlas.get_image(), &pb, &gb);
}

#[test]
fn atlas_grows_with_many_chars() {
    let mut atlas = FontTextureAtlas::<u32>::new().unwrap();
    let mut glyphs = Vec::new();
    for (i, c) in "abcdefghijklmnopqrst".chars().enumerate() {
        let g = glyph(25 + (i as u32 % 7), 30 + (i as u32 % 5), i as u8);
        match atlas.get_char_or_insert(c, &g) {
            Ok(p) => {
                assert_eq!(atlas.get_char(c), Some(p));
                glyphs.push((c, g));
            }
            Err(e) => {
                assert!(matches!(e, rsml::error::Error::FailedToCreateFontTextureImage(_)));
                assert_eq!(atlas.get_char(c), None);
            }
        }
        // Every character inserted so far still shows its own bitmap.
        for (c, g) in &glyphs {
            let p = atlas.get_char(*c).unwrap();
            assert_holds(atlas.get_image(), &p, g);
        }
    }
    assert!(atlas.get_image().get_width() > 128);
}

#[test]
fn atlas_texture_cache_is_dropped_on_insert() {
    let mut atlas = FontTextureAtlas::<u32>::new().unwrap();
    assert_eq!(atlas.cached_texture(), None);
    atlas.store_texture(7);
    assert_eq!(atlas.cached_texture(), Some(&7));
    atlas.get_char_or_insert('x', &glyph(3, 3, 0)).unwrap();
    assert_eq!(atlas.cached_texture(), None);
    atlas.store_texture(8);
    // Asking for a character that is there keeps the texture.
    atlas.get_char_or_insert('x', &glyph(3, 3, 0)).unwrap();
    assert_eq!(atlas.cached_texture(), Some(&8));
}

#[test]
fn font_keeps_an_atlas_per_size() {
    let mut font = FontAtlases::<u32>::new();
    let g16 = glyph(4, 6, 10);
    let g32 = glyph(8, 12, 20);
    let p16 = font.get_char('q', 16, &g16).unwrap();
    let p32 = font.get_char('q', 32, &g32).unwrap();
    assert_eq!(p16, CharParams { x: 1, y: 1, w: 4, h: 6 });
    assert_eq!(p32, CharParams { x: 1, y: 1, w: 8, h: 12 });
    assert_holds(font.get_atlas(16).unwrap().get_image(), &p16, &g16);
    assert_holds(font.get_atlas(32).unwrap().get_image(), &p32, &g32);

    font.store_texture(16, 5);
    assert_eq!(font.get_atlas(16).unwrap().cached_texture(), Some(&5));
    assert_eq!(font.get_atlas(32).unwrap().cached_texture(), None);

    let fresh = font.get_atlas(48).unwrap();
    assert_eq!(fresh.get_char('q'), None);
    assert_eq!(fresh.get_image().get_width(), 128);
}

#[test]
fn font_can_take_glyph() {
    let mut font = FontAtlases::<u32>::new();
    // A bitmap shorter than its size says is refused.
    let short = GlyphBitmap { width: 3, height: 3, data: vec![0; 8] };
    assert!(!font.can_take_glyph('a', 16, &short));
    // A glyph that fits the fresh atlas, or whose grown image stays in u32.
    assert!(font.can_take_glyph('a', 16, &glyph(3, 3, 0)));
    assert!(font.can_take_glyph('a', 16, &glyph(200, 200, 0)));
    // A width so large that the grown image cannot be measured.
    let wide = GlyphBitmap { width: 70_000, height: 70_000, data: Vec::new() };
    assert!(!font.can_take_glyph('a', 16, &wide));
    // A character already in the atlas needs no room.
    font.get_char('a', 16, &glyph(3, 3, 0)).unwrap();
    let empty = GlyphBitmap { width: 0, height: 0, data: Vec::new() };
    assert!(font.can_take_glyph('a', 16, &empty));
    assert_eq!(font.get_char('a', 16, &empty).unwrap(), CharParams { x: 1, y: 1, w: 3, h: 3 });
}

#[test]
fn packed_chars_lie_apart() {
    let mut atlas = FontTextureAtlas::<u32>::new().unwrap();
    let mut placed = Vec::new();
    for (i, c) in "0123456789ABCDEFGHIJ".chars().enumerate() {
        let g = glyph(20 + (i as u32 % 9), 17 + (i as u32 % 6), i as u8);
        if let Ok(p) = atlas.get_char_or_insert(c, &g) {
            placed.push(c);
            let _ = p;
        }
    }
    let rects: Vec<CharParams> = placed.iter().map(|c| atlas.get_char(*c).unwrap()).collect();
    for (i, a) in rects.iter().enumerate() {
        for b in rects.iter().skip(i + 1) {
            let apart = a.x + a.w <= b.x || b.x + b.w <= a.x || a.y + a.h <= b.y || b.y + b.h <= a.y;
            assert!(apart, "{a:?} overlaps {b:?}");
        }
    }
}

#[test]
fn atlas_grows_for_a_glyph_that_does_not_fit() {
    let mut atlas = FontTextureAtlas::<u32>::new().unwrap();
    let small = glyph(10, 10, 1);
    let p = atlas.get_char_or_insert('a', &small).unwrap();
    // 200 wide does not fit in 128: the image grows by the glyph and its border.
    let big = glyph(200, 50, 2);
    let q = atlas.get_char_or_insert('b', &big).unwrap();
    assert_eq!(atlas.get_image().get_width(), 128 + 200 + 2);
    assert_eq!(atlas.get_image().get_height(), 128 + 50 + 2);
    assert_eq!(atlas.get_char('a'), Some(p));
    assert_eq!(q.w, 200);
    assert_eq!(q.h, 50);
    assert_holds(atlas.get_image(), &q, &big);
    assert_holds(atlas.get_image(), &atlas.get_char('a').unwrap(), &small);
}

#[test]
fn font_lookup_twice_gives_the_same_rectangle() {
    let mut font = FontAtlases::<u32>::new();
    let g = glyph(5, 7, 3);
    let p = font.get_char('z', 20, &g).unwrap();
    let empty = GlyphBitmap { width: 0, height: 0, data: Vec::new() };
    assert!(font.can_take_glyph('z', 20, &empty));
    let q = font.get_char('z', 20, &empty).unwrap();
    assert_eq!(p, q);
    // A glyph larger than a fresh atlas still goes into a new size.
    let huge = glyph(300, 300, 4);
    assert!(font.can_take_glyph('y', 30, &huge));
    let r = font.get_char('y', 30, &huge).unwrap();
    assert_eq!(r, CharParams { x: 1, y: 1, w: 300, h: 300 });
}

#[test]
fn text_rects_are_read_after_all_packing() {
    let mut font = FontAtlases::<u32>::new();
    let a = glyph(20, 20, 1);
    let b = glyph(300, 40, 2);
    let glyphs = vec![('a', a), ('b', b)];
    let parents = vec!['a', 'b', 'a', 'x'];
    let result = font.text_rects(16, &glyphs, &parents);
    assert_eq!(result.outcomes, vec![None, None]);
    let rects = result.rects;
    assert_eq!(rects.len(), 4);
    let atlas = font.get_atlas(16).unwrap();
    // 'b' made the image grow; the rectangle of 'a' is the one after the growth.
    assert!(atlas.get_image().get_width() > 128);
    assert_eq!(rects[0], atlas.get_char('a').unwrap());
    assert_eq!(rects[1], atlas.get_char('b').unwrap());
    assert_eq!(rects[2], rects[0]);
    assert_eq!(rects[3], CharParams { x: 0, y: 0, w: 0, h: 0 });
}

#[test]
fn text_rects_list_what_could_not_be_packed() {
    let mut font = FontAtlases::<u32>::new();
    let short = GlyphBitmap { width: 4, height: 4, data: vec![0; 3] };
    let huge = GlyphBitmap { width: u32::MAX - 2, height: 0, data: Vec::new() };
    let glyphs = vec![('s', short), ('h', huge), ('k', glyph(6, 6, 9))];
    let parents = vec!['s', 'h', 'k'];
    let result = font.text_rects(12, &glyphs, &parents);
    assert_eq!(result.outcomes, vec![Some(Refusal::BadBitmap), Some(Refusal::TooLarge), None]);
    assert_eq!(result.rects[0], CharParams { x: 0, y: 0, w: 0, h: 0 });
    assert_eq!(result.rects[1], CharParams { x: 0, y: 0, w: 0, h: 0 });
    assert_eq!(result.rects[2], CharParams { x: 1, y: 1, w: 6, h: 6 });
}

#[test]
fn texture_source_prefers_the_stored_texture() {
    let mut font = FontAtlases::<u32>::new();
    match font.texture_source(10).unwrap() {
        TextureSource::Image(image) => assert_eq!(image.get_width(), 128),
        TextureSource::Cached(_) => panic!("nothing stored yet"),
    }
    font.store_texture(10, 42);
    match font.texture_source(10).unwrap() {
        TextureSource::Cached(texture) => assert_eq!(*texture, 42),
        TextureSource::Image(_) => panic!("the stored texture is there"),
    }
    font.get_char('q', 10, &glyph(2, 2, 0)).unwrap();
    assert!(matches!(font.texture_source(10).unwrap(), TextureSource::Image(_)));
}
