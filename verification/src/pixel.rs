use vstd::prelude::*;

verus! {

/// One RGBA pixel, eight bits per channel.
#[derive(Debug, Clone, Copy, PartialEq, Eq)]
pub struct Pixel {
    pub r: u8,
    pub g: u8,
    pub b: u8,
    pub a: u8,
}

/// The alpha of every rendered pixel.
pub const OPAQUE: u8 = 255;

impl Pixel {
    /// The fully opaque pixel with the given colour channels.
    pub fn from_rgb(r: u8, g: u8, b: u8) -> (pixel: Pixel)
        ensures
            pixel == (Pixel { r, g, b, a: OPAQUE }),
    {
        Pixel { r, g, b, a: OPAQUE }
    }

    /// The pixel with the same colour and full opacity.
    pub open spec fn opaque(self) -> Pixel {
        Pixel { r: self.r, g: self.g, b: self.b, a: OPAQUE }
    }

    /// Channel `c` of the pixel in the order red, green, blue, alpha.
    pub open spec fn channel(self, c: int) -> u8 {
        if c == 0 {
            self.r
        } else if c == 1 {
            self.g
        } else if c == 2 {
            self.b
        } else {
            self.a
        }
    }
}

/// The pixels as a flat RGBA byte sequence: four bytes per pixel, pixel
/// order kept.
pub open spec fn rgba_of(pixels: Seq<Pixel>) -> Seq<u8> {
    Seq::new(4 * pixels.len(), |i: int| pixels[i / 4].channel(i % 4))
}

/// Flattens pixels into RGBA bytes.
pub fn rgba_bytes(pixels: &Vec<Pixel>) -> (bytes: Vec<u8>)
    ensures
        bytes@ == rgba_of(pixels@),
{
    let mut bytes: Vec<u8> = Vec::new();
    let mut i: usize = 0;
    while i < pixels.len()
        invariant
            0 <= i <= pixels@.len(),
            bytes@.len() == 4 * i,
            forall|j: int| 0 <= j < bytes@.len() ==> bytes@[j] == pixels@[j / 4].channel(j % 4),
        decreases pixels@.len() - i,
    {
        let pixel = pixels[i];
        bytes.push(pixel.r);
        bytes.push(pixel.g);
        bytes.push(pixel.b);
        bytes.push(pixel.a);
        i = i + 1;
    }
    assert(bytes@ =~= rgba_of(pixels@));
    bytes
}

} // verus!
