//! Byte-level pixel values: the RGB triple a shaded pixel yields, and the
//! three bytes each pixel contributes to the flat buffer.

use vstd::prelude::*;

verus! {

/// One shaded pixel, each channel already quantized to a byte in 0..=255.
#[derive(Clone, Copy, Debug, PartialEq, Eq, Structural)]
pub struct Rgb {
    pub r: u8,
    pub g: u8,
    pub b: u8,
}

impl Rgb {
    pub fn new(r: u8, g: u8, b: u8) -> (c: Rgb)
        ensures
            c == (Rgb { r, g, b }),
    {
        Rgb { r, g, b }
    }

    /// The all-black value written for rays that hit nothing.
    pub fn black() -> (c: Rgb)
        ensures
            c == (Rgb { r: 0, g: 0, b: 0 }),
    {
        Rgb { r: 0, g: 0, b: 0 }
    }
}

/// The three bytes a pixel contributes to the flat buffer: its channels if a
/// shaded color is present, and black on an intersection miss.
pub open spec fn pixel_bytes(p: Option<Rgb>) -> Seq<u8> {
    match p {
        Option::Some(c) => seq![c.r, c.g, c.b],
        Option::None => seq![0u8, 0u8, 0u8],
    }
}

} // verus!
