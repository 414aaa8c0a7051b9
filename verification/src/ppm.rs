//! The plain-text PPM decoder. A file is four lines: a magic marker that
//! is not inspected, a geometry line "width height", a maximum-value
//! marker that is not inspected, and one line of space-separated decimal
//! pixel channel values in row-major R,G,B order.
use vstd::prelude::*;

use crate::text::{
    SPACE, digits_part, is_u8_token, is_u64_token, lemma_digits_value_nonneg, lines_of,
    parse_u64_token, parse_u8_or_zero, pixel_byte, split_bytes, split_lines, split_on, token_value,
};

verus! {

/// Why a decode failed.
#[derive(Debug, Clone, Copy, PartialEq, Eq, Structural)]
pub enum DecodeError {
    /// The file could not be read at all.
    IoError,
    /// The text has fewer than four lines, or its geometry line does not
    /// hold two sizes.
    FormatError,
}

/// A decoded image: its sizes and its RGB bytes, row-major, three bytes
/// per pixel. The pixel line is taken as it stands, so the buffer's
/// length is not checked against `width * height * 3`.
#[derive(Debug, PartialEq, Eq)]
pub struct DecodedImage {
    pub width: u64,
    pub height: u64,
    pub pixels: Vec<u8>,
}

/// The tokens of the geometry line of `t`.
pub open spec fn geometry_tokens(t: Seq<u8>) -> Seq<Seq<u8>> {
    split_on(lines_of(t)[1], SPACE)
}

/// The tokens of the pixel line of `t`.
pub open spec fn pixel_tokens(t: Seq<u8>) -> Seq<Seq<u8>> {
    split_on(lines_of(t)[3], SPACE)
}

/// Whether the text `t` decodes: at least four lines, and a geometry line
/// whose first two tokens are sizes. The pixel line plays no part in it.
pub open spec fn decode_ok(t: Seq<u8>) -> bool {
    &&& lines_of(t).len() >= 4
    &&& geometry_tokens(t).len() >= 2
    &&& is_u64_token(geometry_tokens(t)[0])
    &&& is_u64_token(geometry_tokens(t)[1])
}

/// The width a decode of `t` reports.
pub open spec fn decoded_width(t: Seq<u8>) -> int {
    token_value(geometry_tokens(t)[0])
}

/// The height a decode of `t` reports.
pub open spec fn decoded_height(t: Seq<u8>) -> int {
    token_value(geometry_tokens(t)[1])
}

/// The RGB bytes a decode of `t` yields: every token of the pixel line,
/// each read leniently.
pub open spec fn decoded_pixels(t: Seq<u8>) -> Seq<u8> {
    pixel_tokens(t).map_values(|tok: Seq<u8>| pixel_byte(tok))
}

impl DecodedImage {
    /// Whether this image is what a successful decode of the text `t`
    /// yields.
    pub open spec fn is_decode_of(self, t: Seq<u8>) -> bool {
        &&& decode_ok(t)
        &&& self.width == decoded_width(t)
        &&& self.height == decoded_height(t)
        &&& self.pixels@ == decoded_pixels(t)
    }
}

/// Decodes the text of a PPM file. `read` carries the file's bytes, or
/// nothing where the file could not be read; that failure is the one
/// source of `IoError`. A malformed pixel token never fails the decode:
/// it becomes a zero byte.
pub fn decode(read: Option<&[u8]>) -> (r: Result<DecodedImage, DecodeError>)
    ensures
        read is None ==> r == Err::<DecodedImage, DecodeError>(DecodeError::IoError),
        read is Some && decode_ok(read->0@) ==> r is Ok && r->Ok_0.is_decode_of(read->0@),
        read is Some && !decode_ok(read->0@) ==> r == Err::<DecodedImage, DecodeError>(
            DecodeError::FormatError,
        ),
{
    let text: &[u8] = match read {
        Option::None => {
            return Err(DecodeError::IoError);
        },
        Option::Some(t) => t,
    };
    let lines = split_lines(text);
    if lines.len() < 4 {
        return Err(DecodeError::FormatError);
    }
    let geometry = split_bytes(lines[1].as_slice(), SPACE);
    if geometry.len() < 2 {
        return Err(DecodeError::FormatError);
    }
    let width = match parse_u64_token(geometry[0].as_slice()) {
        Option::Some(v) => v,
        Option::None => {
            return Err(DecodeError::FormatError);
        },
    };
    let height = match parse_u64_token(geometry[1].as_slice()) {
        Option::Some(v) => v,
        Option::None => {
            return Err(DecodeError::FormatError);
        },
    };
    proof {
        lemma_digits_value_nonneg(digits_part(geometry@[0]@));
        lemma_digits_value_nonneg(digits_part(geometry@[1]@));
    }
    let channel_tokens = split_bytes(lines[3].as_slice(), SPACE);
    let mut pixels: Vec<u8> = Vec::new();
    let mut k: usize = 0;
    while k < channel_tokens.len()
        invariant
            k <= channel_tokens@.len(),
            pixels@.len() == k,
            forall|j: int| 0 <= j < k ==> pixels@[j] == pixel_byte(#[trigger] channel_tokens@[j]@),
        decreases channel_tokens@.len() - k,
    {
        let byte = parse_u8_or_zero(channel_tokens[k].as_slice());
        pixels.push(byte);
        k = k + 1;
    }
    proof {
        let t = text@;
        assert(lines@[3]@ == lines_of(t)[3]);
        assert(channel_tokens@.len() == pixel_tokens(t).len());
        assert forall|j: int| 0 <= j < pixels@.len() implies pixels@[j] == decoded_pixels(t)[j] by {
            assert(channel_tokens@[j]@ == pixel_tokens(t)[j]);
        }
        assert(pixels@ =~= decoded_pixels(t));
    }
    Ok(DecodedImage { width, height, pixels })
}

/// The blank image that stands in when a decode fails: 64 by 64, every
/// RGB byte zero.
pub fn fallback_image() -> (img: DecodedImage)
    ensures
        img.width == 64,
        img.height == 64,
        img.pixels@.len() == 12288,
        forall|j: int| 0 <= j < img.pixels@.len() ==> img.pixels@[j] == 0u8,
{
    DecodedImage { width: 64, height: 64, pixels: vec![0u8; 12288] }
}

/// One refresh of the viewer's image: the decoded file where the decode
/// succeeds, and the blank fallback image for any failure, so that bad
/// input degrades to a black square instead of an error.
pub fn image_or_fallback(read: Option<&[u8]>) -> (img: DecodedImage)
    ensures
        read is Some && decode_ok(read->0@) ==> img.is_decode_of(read->0@),
        !(read is Some && decode_ok(read->0@)) ==> {
            &&& img.width == 64
            &&& img.height == 64
            &&& img.pixels@.len() == 12288
            &&& forall|j: int| 0 <= j < img.pixels@.len() ==> img.pixels@[j] == 0u8
        },
{
    match decode(read) {
        Result::Ok(img) => img,
        Result::Err(_) => fallback_image(),
    }
}

/// Any text whose geometry line opens with two well-formed size tokens
/// decodes, and to exactly those sizes — whatever the pixel line holds.
pub proof fn lemma_geometry_decoded(t: Seq<u8>)
    requires
        lines_of(t).len() >= 4,
        geometry_tokens(t).len() >= 2,
        is_u64_token(geometry_tokens(t)[0]),
        is_u64_token(geometry_tokens(t)[1]),
    ensures
        decode_ok(t),
        decoded_width(t) == token_value(geometry_tokens(t)[0]),
        decoded_height(t) == token_value(geometry_tokens(t)[1]),
{
}

/// Where every pixel token is a well-formed byte token, the decoded RGB
/// buffer lists exactly those token values, in order.
pub proof fn lemma_pixels_exact(t: Seq<u8>)
    requires
        lines_of(t).len() >= 4,
        forall|k: int| 0 <= k < pixel_tokens(t).len() ==> is_u8_token(
            #[trigger] pixel_tokens(t)[k],
        ),
    ensures
        decoded_pixels(t).len() == pixel_tokens(t).len(),
        forall|k: int| 0 <= k < pixel_tokens(t).len() ==> decoded_pixels(t)[k] == token_value(
            #[trigger] pixel_tokens(t)[k],
        ),
{
    assert forall|k: int| 0 <= k < pixel_tokens(t).len() implies decoded_pixels(t)[k]
        == token_value(pixel_tokens(t)[k]) by {
        lemma_digits_value_nonneg(digits_part(pixel_tokens(t)[k]));
    }
}

/// A malformed pixel token decodes to the zero byte, and costs nothing
/// else: the decode still succeeds on the strength of the geometry line
/// alone.
pub proof fn lemma_bad_pixel_token_is_zero(t: Seq<u8>, k: int)
    requires
        decode_ok(t),
        0 <= k < pixel_tokens(t).len(),
        !is_u8_token(pixel_tokens(t)[k]),
    ensures
        decoded_pixels(t)[k] == 0u8,
        decoded_pixels(t).len() == pixel_tokens(t).len(),
{
}

/// Decoding is a pure function of the file's bytes: two successful
/// decodes of the same text are bit-identical images.
pub proof fn lemma_decode_deterministic(t: Seq<u8>, a: DecodedImage, b: DecodedImage)
    requires
        a.is_decode_of(t),
        b.is_decode_of(t),
    ensures
        a.width == b.width,
        a.height == b.height,
        a.pixels@ == b.pixels@,
{
}

} // verus!
