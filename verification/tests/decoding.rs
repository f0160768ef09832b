use rsml::error::Error;
use rsml::font_face::FontFace;
use rsml::image_data::decode_image;

/// A PNG of two pixels: opaque red, then half transparent green.
const TWO_PIXEL_PNG: [u8; 72] = [
    137, 80, 78, 71, 13, 10, 26, 10, 0, 0, 0, 13, 73, 72, 68, 82, 0, 0, 0, 2, 0, 0, 0, 1, 8, 6,
    0, 0, 0, 244, 34, 127, 138, 0, 0, 0, 15, 73, 68, 65, 84, 120, 156, 99, 248, 207, 192, 240,
    31, 8, 27, 0, 16, 121, 3, 126, 125, 99, 206, 215, 0, 0, 0, 0, 73, 69, 78, 68, 174, 66, 96,
    130,
];

#[test]
fn png_decodes_to_rgba() {
    let image = decode_image(&TWO_PIXEL_PNG).unwrap();
    assert_eq!(image.width, 2);
    assert_eq!(image.height, 1);
    assert_eq!(image.samples, vec![255, 0, 0, 255, 0, 255, 0, 128]);
}

#[test]
fn garbage_is_no_image() {
    let r = decode_image(&[1, 2, 3, 4, 5]);
    assert!(matches!(r, Err(Error::FailedToLoadImage(_))));
    let mut broken = TWO_PIXEL_PNG;
    broken[40] ^= 0xff;
    assert!(matches!(decode_image(&broken), Err(Error::FailedToLoadImage(_))));
}

#[test]
fn garbage_is_no_font() {
    let r = FontFace::<u32>::from_bytes(&[0, 1, 0, 0, 7, 7, 7]);
    assert!(matches!(r, Err(Error::FailedToLoadFont(_))));
    let r = FontFace::<u32>::from_bytes(&[]);
    assert!(matches!(r, Err(Error::FailedToLoadFont(_))));
    let r = FontFace::<u32>::from_bytes(&TWO_PIXEL_PNG);
    assert!(matches!(r, Err(Error::FailedToLoadFont(_))));
}

#[test]
fn decoding_errors_carry_the_decoders_message() {
    let bytes = [1u8, 2, 3, 4, 5];
    let expected = image::load_from_memory(&bytes).unwrap_err().to_string();
    match decode_image(&bytes) {
        Err(Error::FailedToLoadImage(message)) => assert_eq!(message, expected),
        _ => panic!("garbage decoded"),
    }
    let expected = match fontdue::Font::from_bytes(&bytes[..], fontdue::FontSettings::default()) {
        Err(message) => message.to_string(),
        Ok(_) => panic!("garbage parsed"),
    };
    match FontFace::<u32>::from_bytes(&bytes) {
        Err(Error::FailedToLoadFont(message)) => assert_eq!(message, expected),
        _ => panic!("garbage parsed"),
    }
}
