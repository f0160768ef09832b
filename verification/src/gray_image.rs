use vstd::prelude::*;

verus! {

/// A grey image of the `image` crate (`image::GrayImage`), one byte per pixel, row by row.
/// Its fields are hidden; what the library knows of it is what the functions below state over
/// `gray_samples`, `gray_width` and `gray_height`.
#[verifier::external_body]
pub struct GrayBuffer {
    image: image::GrayImage,
}

/// The samples that a grey image holds, row by row.
pub uninterp spec fn gray_samples(img: GrayBuffer) -> Seq<u8>;

/// The width that a grey image was made with.
pub uninterp spec fn gray_width(img: GrayBuffer) -> u32;

/// The height that a grey image was made with.
pub uninterp spec fn gray_height(img: GrayBuffer) -> u32;

/// The index of the sample of pixel `(x, y)` in an image `width` pixels wide.
pub open spec fn sample_index(width: u32, x: int, y: int) -> int {
    y * width + x
}

/// Calls `image::ImageBuffer::from_raw`: it gives back an image exactly when the buffer holds
/// at least `width * height` samples, and that image keeps the buffer as it is.
#[verifier::external_body]
pub(crate) fn gray_from_raw(width: u32, height: u32, buf: Vec<u8>) -> (r: Option<GrayBuffer>)
    ensures
        r.is_some() <==> width as int * height as int <= buf@.len(),
        r matches Some(img) ==> {
            &&& gray_width(img) == width
            &&& gray_height(img) == height
            &&& gray_samples(img) == buf@
        },
{
    image::GrayImage::from_raw(width, height, buf).map(|image| GrayBuffer { image })
}

/// Calls `image::ImageBuffer::put_pixel` with a one-channel `image::Luma`: it overwrites the
/// sample of pixel `(x, y)` and nothing else. It panics outside the image or where the
/// buffer is shorter than the image, which `requires` leaves out.
#[verifier::external_body]
pub(crate) fn gray_put_pixel(img: &mut GrayBuffer, x: u32, y: u32, value: u8)
    requires
        x < gray_width(*old(img)),
        y < gray_height(*old(img)),
        gray_width(*old(img)) as int * gray_height(*old(img)) as int <= gray_samples(*old(img)).len(),
    ensures
        gray_width(*final(img)) == gray_width(*old(img)),
        gray_height(*final(img)) == gray_height(*old(img)),
        gray_samples(*final(img)) == gray_samples(*old(img)).update(
            sample_index(gray_width(*old(img)), x as int, y as int),
            value,
        ),
{
    img.image.put_pixel(x, y, image::Luma([value]))
}

/// Calls `image::ImageBuffer::get_pixel`: it reads the sample of pixel `(x, y)`. It panics
/// outside the image, which `requires` leaves out.
#[verifier::external_body]
pub(crate) fn gray_get_pixel(img: &GrayBuffer, x: u32, y: u32) -> (r: u8)
    requires
        x < gray_width(*img),
        y < gray_height(*img),
        gray_width(*img) as int * gray_height(*img) as int <= gray_samples(*img).len(),
    ensures
        r == gray_samples(*img)[sample_index(gray_width(*img), x as int, y as int)],
{
    img.image.get_pixel(x, y).0[0]
}

/// Calls `image::ImageBuffer::as_raw`: the buffer that the image holds.
#[verifier::external_body]
pub(crate) fn gray_as_raw(img: &GrayBuffer) -> (r: &Vec<u8>)
    ensures
        r@ == gray_samples(*img),
{
    img.image.as_raw()
}

} // verus!
