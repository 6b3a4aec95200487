//! The dense RGBA image a renderer produces, and its construction from a
//! raw byte buffer.

use vstd::prelude::*;

verus! {

/// One RGBA pixel.
#[derive(Clone, Copy, Debug, PartialEq, Eq)]
pub struct Rgba {
    pub r: u8,
    pub g: u8,
    pub b: u8,
    pub a: u8,
}

/// A dense image in row-major order: pixel (x, y) sits at `y * width + x`.
#[derive(Clone, Debug)]
pub struct Image {
    pub width: usize,
    pub height: usize,
    pub pixels: Vec<Rgba>,
}

impl Image {
    /// The buffer holds exactly one pixel per coordinate.
    pub open spec fn wf(&self) -> bool {
        self.pixels@.len() == self.width * self.height
    }
}

/// The pixel a raw RGBA byte buffer holds at index `i`: four consecutive
/// bytes, or fully transparent where the buffer is too short.
pub open spec fn spec_pixel_at(bytes: Seq<u8>, i: int) -> Rgba {
    if 0 <= i && 4 * i + 3 < bytes.len() {
        Rgba { r: bytes[4 * i], g: bytes[4 * i + 1], b: bytes[4 * i + 2], a: bytes[4 * i + 3] }
    } else {
        Rgba { r: 0, g: 0, b: 0, a: 0 }
    }
}

/// Builds an image of the given size from a raw RGBA byte buffer, four
/// bytes per pixel in row-major order; missing bytes become transparent
/// pixels.
pub fn bytes_to_image(bytes: &Vec<u8>, width: usize, height: usize) -> (img: Image)
    requires
        4 * (width * height) + 4 <= usize::MAX,
    ensures
        img.wf(),
        img.width == width,
        img.height == height,
        forall|i: int|
            0 <= i < width * height ==> img.pixels@[i] == #[trigger] spec_pixel_at(bytes@, i),
{
    let total = width * height;
    let mut pixels: Vec<Rgba> = Vec::new();
    let mut i: usize = 0;
    while i < total
        invariant
            0 <= i <= total,
            total == width * height,
            4 * total + 4 <= usize::MAX,
            pixels@.len() == i,
            forall|k: int| 0 <= k < i ==> pixels@[k] == #[trigger] spec_pixel_at(bytes@, k),
        decreases total - i,
    {
        let base = 4 * i;
        if base + 3 < bytes.len() {
            pixels.push(
                Rgba {
                    r: bytes[base],
                    g: bytes[base + 1],
                    b: bytes[base + 2],
                    a: bytes[base + 3],
                },
            );
        } else {
            pixels.push(Rgba { r: 0, g: 0, b: 0, a: 0 });
        }
        i += 1;
    }
    Image { width, height, pixels }
}

} // verus!
