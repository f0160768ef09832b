use vstd::prelude::*;

use crate::error::Error;
use crate::font::FontAtlases;

verus! {

#[verifier::external_type_specification]
#[verifier::external_body]
pub struct ExFontdueFont(fontdue::Font);

/// The message fontdue gives where it cannot read `data` as a font (TrueType or OpenType)
/// with its default settings; `None` where it reads it.
pub uninterp spec fn font_parse_error(data: Seq<u8>) -> Option<Seq<char>>;

/// fontdue reads `data` as a font.
pub open spec fn font_parses(data: Seq<u8>) -> bool {
    font_parse_error(data) is None
}

/// Calls `fontdue::Font::from_bytes` with the default `FontSettings`: the outlines of the font
/// that `data` holds, or fontdue's message where it cannot read them. Whether it succeeds, and
/// the message, are named by `font_parse_error`; the outlines are not stated, as fontdue's
/// `Font` holds hash maps whose state is not a function of the bytes.
#[verifier::external_body]
fn parse_font(data: &[u8]) -> (r: Result<fontdue::Font, String>)
    ensures
        r is Ok <==> font_parse_error(data@) is None,
        r matches Err(message) ==> font_parse_error(data@) == Some(message@),
{
    match fontdue::Font::from_bytes(data, fontdue::FontSettings::default()) {
        Ok(font) => Ok(font),
        Err(message) => Err(message.to_string()),
    }
}

/// A font: the outlines that the renderer rasterizes characters from, read from the bytes of
/// a font file, and the atlases of the characters asked for so far, one per size in pixels.
pub struct FontFace<T> {
    outlines: fontdue::Font,
    atlases: FontAtlases<T>,
    data: Ghost<Seq<u8>>,
}

impl<T> FontFace<T> {
    /// The bytes the font was read from.
    pub closed spec fn source(&self) -> Seq<u8> {
        self.data@
    }

    /// The outlines of the font, as fontdue read them from `source()`.
    pub closed spec fn outlines_spec(&self) -> fontdue::Font {
        self.outlines
    }

    /// The atlases of the font.
    pub closed spec fn atlas_map(&self) -> FontAtlases<T> {
        self.atlases
    }

    /// The font was read from its bytes, and its atlases are well formed.
    pub open spec fn wf(&self) -> bool {
        &&& font_parses(self.source())
        &&& self.atlas_map().wf()
    }

    /// Reads a font from the bytes of a font file; it has no atlas yet.
    ///
    /// # Errors
    ///
    /// `FailedToLoadFont` where fontdue cannot read the bytes as a font.
    pub fn from_bytes(data: &[u8]) -> (r: Result<Self, Error>)
        ensures
            r is Ok <==> font_parses(data@),
            r matches Ok(face) ==> {
                &&& face.wf()
                &&& face.source() == data@
                &&& face.atlas_map().atlases() == Map::<u32, crate::texture_atlas::FontTextureAtlas<T>>::empty()
            },
            r matches Err(e) ==> e matches Error::FailedToLoadFont(message) && font_parse_error(
                data@,
            ) == Some(message@),
    {
        match parse_font(data) {
            Ok(outlines) => Ok(Self { outlines, atlases: FontAtlases::new(), data: Ghost(data@) }),
            Err(message) => Err(Error::FailedToLoadFont(message)),
        }
    }

    /// The outlines of the font, for rasterizing characters and laying out text.
    pub fn outlines(&self) -> (r: &fontdue::Font)
        ensures
            *r == self.outlines_spec(),
    {
        &self.outlines
    }

    /// The atlases of the font.
    pub fn atlases(&self) -> (r: &FontAtlases<T>)
        ensures
            *r == self.atlas_map(),
    {
        &self.atlases
    }

    /// The atlases of the font, to add characters and textures to; the outlines stay as they
    /// are.
    pub fn atlases_mut(&mut self) -> (r: &mut FontAtlases<T>)
        ensures
            *r == old(self).atlas_map(),
            final(self).atlas_map() == *final(r),
            final(self).source() == old(self).source(),
            final(self).outlines_spec() == old(self).outlines_spec(),
    {
        &mut self.atlases
    }
}

} // verus!
