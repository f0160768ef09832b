use vstd::prelude::*;

verus! {

/// Calls `rand::TryRng::try_next_u32` on `rand::rngs::SysRng`, the generator of the operating
/// system: a random word, or `None` where the system could not give one. Nothing is stated of
/// the word.
#[verifier::external_body]
fn system_random_word() -> Option<u32> {
    rand::TryRng::try_next_u32(&mut rand::rngs::SysRng).ok()
}

/// A colour with 8 bits for each of red, green, blue and opacity.
#[derive(Copy, Clone, Debug, PartialEq, Eq, Structural)]
pub struct Color {
    pub r: u8,
    pub g: u8,
    pub b: u8,
    pub a: u8,
}

/// The low byte of `word` shifted right by `shift` bits.
pub open spec fn byte_of(word: u32, shift: u32) -> u8 {
    ((word >> shift) % 256) as u8
}

impl Color {
    /// The fully opaque colour of the given red, green and blue.
    pub fn opaque(r: u8, g: u8, b: u8) -> (c: Self)
        ensures
            c == (Color { r, g, b, a: 255 }),
    {
        Color { r, g, b, a: 255 }
    }

    /// The opaque colour whose red, green and blue are the three low bytes of `word`.
    pub fn from_word(word: u32) -> (c: Self)
        ensures
            c == Color::opaque_spec(byte_of(word, 0), byte_of(word, 8), byte_of(word, 16)),
    {
        let r = ((word >> 0u32) % 256) as u8;
        let g = ((word >> 8u32) % 256) as u8;
        let b = ((word >> 16u32) % 256) as u8;
        Self::opaque(r, g, b)
    }

    /// The fully opaque colour of the given red, green and blue.
    pub open spec fn opaque_spec(r: u8, g: u8, b: u8) -> Self {
        Color { r, g, b, a: 255 }
    }

    /// A fully opaque colour with random red, green and blue, drawn from the generator of the
    /// operating system; `None` where the system could not give a random word.
    pub fn random() -> (c: Option<Self>)
        ensures
            c matches Some(col) ==> col.a == 255,
    {
        match system_random_word() {
            Some(word) => Some(Self::from_word(word)),
            None => None,
        }
    }
}

} // verus!
