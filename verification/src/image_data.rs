use vstd::prelude::*;

use crate::error::Error;

verus! {

/// The picture that `image` decodes `data` to, in the format it guesses from the bytes, as its
/// width, its height and its RGBA samples row by row; or the decoder's message where it
/// cannot decode them.
pub uninterp spec fn decoded_rgba(data: Seq<u8>) -> Result<(u32, u32, Seq<u8>), Seq<char>>;

/// Calls `image::load_from_memory` and converts the picture with `to_rgba8`: its width, height
/// and samples, or the decoder's message. Both results are named by `decoded_rgba`; an
/// `ImageBuffer` always holds at least four samples per pixel of an RGBA picture.
#[verifier::external_body]
fn decode_rgba(data: &[u8]) -> (r: Result<(u32, u32, Vec<u8>), String>)
    ensures
        r is Ok <==> decoded_rgba(data@) is Ok,
        r matches Ok(t) ==> decoded_rgba(data@)->Ok_0 == (t.0, t.1, t.2@),
        r matches Err(message) ==> decoded_rgba(data@)->Err_0 == message@,
        r matches Ok(t) ==> t.2@.len() >= 4 * t.0 * t.1,
{
    match image::load_from_memory(data) {
        Ok(picture) => {
            let rgba = picture.to_rgba8();
            Ok((rgba.width(), rgba.height(), rgba.into_raw()))
        },
        Err(err) => Err(err.to_string()),
    }
}

/// A decoded picture: its size in pixels and its samples, four bytes (red, green, blue,
/// opacity) per pixel, row by row.
pub struct RgbaImage {
    pub width: u32,
    pub height: u32,
    pub samples: Vec<u8>,
}

/// Decodes the bytes of an image file (of a format that `image` can tell from the bytes) into
/// RGBA samples, for making a texture of it.
///
/// # Errors
///
/// `FailedToLoadImage` where the bytes cannot be decoded.
pub fn decode_image(data: &[u8]) -> (r: Result<RgbaImage, Error>)
    ensures
        r is Ok <==> decoded_rgba(data@) is Ok,
        r matches Ok(img) ==> decoded_rgba(data@)->Ok_0 == (img.width, img.height, img.samples@),
        r matches Ok(img) ==> img.samples@.len() >= 4 * img.width * img.height,
        r matches Err(e) ==> e matches Error::FailedToLoadImage(message)
            && decoded_rgba(data@)->Err_0 == message@,
{
    match decode_rgba(data) {
        Ok((width, height, samples)) => Ok(RgbaImage { width, height, samples }),
        Err(message) => Err(Error::FailedToLoadImage(message)),
    }
}

} // verus!
