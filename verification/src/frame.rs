//! Conversion of a decoded RGB image into an RGBA render buffer: three
//! source bytes per pixel become four, with a fully opaque alpha byte.
use vstd::prelude::*;

use crate::ppm::DecodedImage;

verus! {

/// An RGBA buffer ready for a display surface: four bytes per pixel,
/// `width * height * 4` in all.
#[derive(Debug, PartialEq, Eq)]
pub struct RenderBuffer {
    pub width: u64,
    pub height: u64,
    pub pixels: Vec<u8>,
}

/// The source byte at offset `p`, with reads past the end of a short
/// buffer yielding zero: the decoder does not promise that the pixel line
/// filled the whole image, so missing channels are taken as black.
pub open spec fn source_byte(src: Seq<u8>, p: int) -> u8 {
    if 0 <= p < src.len() {
        src[p]
    } else {
        0
    }
}

/// Byte `j` of the RGBA buffer built from the RGB bytes `src`: every
/// fourth byte is the opaque alpha value 255, and the rest come from the
/// corresponding channel of the same pixel in `src`.
pub open spec fn rgba_byte(src: Seq<u8>, j: int) -> u8 {
    if j % 4 == 3 {
        255
    } else {
        source_byte(src, 3 * (j / 4) + j % 4)
    }
}

/// A blank image renders as opaque black: over an all-zero RGB buffer —
/// the decode fallback — every alpha byte of the RGBA buffer is 255 and
/// every color byte is zero, whatever the buffer's length.
pub proof fn lemma_blank_renders_opaque_black(src: Seq<u8>, j: int)
    requires
        forall|p: int| 0 <= p < src.len() ==> src[p] == 0u8,
    ensures
        j % 4 == 3 ==> rgba_byte(src, j) == 255u8,
        j % 4 != 3 ==> rgba_byte(src, j) == 0u8,
{
}

/// Builds render buffers from decoded images.
pub struct FrameBuilder;

impl FrameBuilder {
    /// Converts `image` into an RGBA buffer: per pixel, its three RGB
    /// bytes followed by an alpha byte of 255. Channels the decoded
    /// buffer does not cover are written as zero.
    pub fn build(image: &DecodedImage) -> (r: RenderBuffer)
        requires
            image.width * image.height * 4 <= usize::MAX,
        ensures
            r.width == image.width,
            r.height == image.height,
            r.pixels@.len() == image.width * image.height * 4,
            forall|j: int| 0 <= j < r.pixels@.len() ==> r.pixels@[j] == rgba_byte(
                image.pixels@,
                j,
            ),
    {
        let ghost src = image.pixels@;
        proof {
            assert(image.width * image.height <= image.width * image.height * 4) by (nonlinear_arith);
        }
        let count: u64 = image.width * image.height;
        let mut pixels: Vec<u8> = Vec::new();
        let mut i: u64 = 0;
        while i < count
            invariant
                i <= count,
                count == image.width * image.height,
                count * 4 <= usize::MAX,
                pixels@.len() == i * 4,
                forall|j: int| 0 <= j < pixels@.len() ==> pixels@[j] == rgba_byte(src, j),
                src == image.pixels@,
            decreases count - i,
        {
            proof {
                assert(i * 4 + 4 <= count * 4) by (nonlinear_arith)
                    requires
                        i < count,
                ;
                assert(i * 3 + 3 <= count * 4) by (nonlinear_arith)
                    requires
                        i < count,
                ;
            }
            let base: u64 = i * 3;
            let red = Self::channel(image, base);
            let green = Self::channel(image, base + 1);
            let blue = Self::channel(image, base + 2);
            pixels.push(red);
            pixels.push(green);
            pixels.push(blue);
            pixels.push(255);
            proof {
                assert forall|j: int| i * 4 <= j < i * 4 + 4 implies pixels@[j] == rgba_byte(
                    src,
                    j,
                ) by {
                    assert(j / 4 == i && j % 4 == j - i * 4) by (nonlinear_arith)
                        requires
                            i * 4 <= j < i * 4 + 4,
                    ;
                }
            }
            i = i + 1;
        }
        RenderBuffer { width: image.width, height: image.height, pixels }
    }

    /// The source channel byte at offset `p`, zero where the decoded
    /// buffer ends before it.
    fn channel(image: &DecodedImage, p: u64) -> (b: u8)
        requires
            p <= usize::MAX,
        ensures
            b == source_byte(image.pixels@, p as int),
    {
        let q = p as usize;
        if q < image.pixels.len() {
            image.pixels[q]
        } else {
            0
        }
    }
}

} // verus!
