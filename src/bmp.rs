use vstd::prelude::*;

use crate::frame::{lemma_index_in_bounds, FrameBuffer};
use crate::pixel::Pixel;

verus! {

/// Why a byte sequence was not decoded.
#[derive(Clone, Copy, Debug, PartialEq, Eq, Structural)]
pub enum DecodeError {
    /// The image does not use 24 bits per pixel.
    UnsupportedFormat,
    /// A header field or the pixel data runs past the end of the input.
    Truncated,
}

/// Bytes that must be present to read every header field.
pub const HEADER_LEN: usize = 30;

/// The only pixel depth accepted: blue, green and red bytes, no palette, no alpha.
pub const SUPPORTED_BITS_PER_PIXEL: u16 = 24;

/// Little-endian 16-bit integer at `at`.
pub open spec fn le_u16(b: Seq<u8>, at: int) -> nat {
    b[at] as nat + 256 * (b[at + 1] as nat)
}

/// Little-endian 32-bit integer at `at`.
pub open spec fn le_u32(b: Seq<u8>, at: int) -> nat {
    le_u16(b, at) + 65536 * le_u16(b, at + 2)
}

/// Where the pixel data starts.
pub open spec fn data_offset(b: Seq<u8>) -> nat {
    le_u32(b, 10)
}

pub open spec fn image_width(b: Seq<u8>) -> nat {
    le_u32(b, 18)
}

pub open spec fn image_height(b: Seq<u8>) -> nat {
    le_u32(b, 22)
}

pub open spec fn bits_per_pixel(b: Seq<u8>) -> nat {
    le_u16(b, 28)
}

/// Bytes of pixel data that the header declares: three per pixel, rows tightly packed.
pub open spec fn pixel_data_len(b: Seq<u8>) -> nat {
    3 * (image_width(b) * image_height(b))
}

/// The pixel stored as blue, green, red at `at`.
pub open spec fn bgr_pixel(b: Seq<u8>, at: int) -> Pixel {
    Pixel { red: b[at + 2], green: b[at + 1], blue: b[at] }
}

/// The error that decoding `b` gives, if any.
pub open spec fn decode_error(b: Seq<u8>) -> Option<DecodeError> {
    if b.len() < HEADER_LEN {
        Some(DecodeError::Truncated)
    } else if bits_per_pixel(b) != SUPPORTED_BITS_PER_PIXEL {
        Some(DecodeError::UnsupportedFormat)
    } else if data_offset(b) + pixel_data_len(b) > b.len() {
        Some(DecodeError::Truncated)
    } else {
        None
    }
}

/// The pixels of `b` in the order stored, row `y` column `x` at index `y * width + x`.
pub open spec fn decoded_pixels(b: Seq<u8>) -> Seq<Pixel> {
    Seq::new(
        image_width(b) * image_height(b),
        |i: int| bgr_pixel(b, data_offset(b) + 3 * i),
    )
}

/// `r` is the outcome of decoding `b`.
pub open spec fn decodes_as(b: Seq<u8>, r: Result<FrameBuffer, DecodeError>) -> bool {
    match r {
        Ok(fb) => {
            &&& decode_error(b) is None
            &&& fb.wf()
            &&& fb@.width == image_width(b)
            &&& fb@.height == image_height(b)
            &&& fb@.pixels == decoded_pixels(b)
        },
        Err(e) => decode_error(b) == Some(e),
    }
}

fn read_u16_le(b: &[u8], at: usize) -> (r: u16)
    requires
        at + 2 <= b@.len(),
    ensures
        r == le_u16(b@, at as int),
{
    (b[at] as u16) + (b[at + 1] as u16) * 256
}

fn read_u32_le(b: &[u8], at: usize) -> (r: u32)
    requires
        at + 4 <= b@.len(),
    ensures
        r == le_u32(b@, at as int),
{
    assert(b@.len() == b.len());
    (read_u16_le(b, at) as u32) + (read_u16_le(b, at + 2) as u32) * 65536
}

/// Decodes an uncompressed 24-bit BMP image.
///
/// Rows are read tightly packed and in the order stored, without alignment padding.
pub fn parse_bmp(raw: &[u8]) -> (r: Result<FrameBuffer, DecodeError>)
    ensures
        decodes_as(raw@, r),
{
    if raw.len() < HEADER_LEN {
        return Err(DecodeError::Truncated);
    }
    let width = read_u32_le(raw, 18) as usize;
    let height = read_u32_le(raw, 22) as usize;
    let bpp = read_u16_le(raw, 28);
    if bpp != SUPPORTED_BITS_PER_PIXEL {
        return Err(DecodeError::UnsupportedFormat);
    }
    let offset = read_u32_le(raw, 10) as usize;

    let count: usize = match width.checked_mul(height) {
        Some(n) => n,
        None => {
            assert(pixel_data_len(raw@) > usize::MAX) by (nonlinear_arith)
                requires
                    image_width(raw@) * image_height(raw@) > usize::MAX,
                    pixel_data_len(raw@) == 3 * (image_width(raw@) * image_height(raw@)),
            ;
            return Err(DecodeError::Truncated);
        },
    };
    let data_len: usize = match count.checked_mul(3) {
        Some(n) => n,
        None => return Err(DecodeError::Truncated),
    };
    let end: usize = match offset.checked_add(data_len) {
        Some(n) => n,
        None => return Err(DecodeError::Truncated),
    };
    if end > raw.len() {
        return Err(DecodeError::Truncated);
    }

    let ghost b = raw@;
    let mut buffer = FrameBuffer::new(width, height);
    let mut y: usize = 0;
    while y < height
        invariant
            b == raw@,
            decode_error(b) is None,
            width == image_width(b),
            height == image_height(b),
            count == width * height,
            data_len == 3 * count,
            offset == data_offset(b),
            offset + data_len <= b.len(),
            offset + data_len <= usize::MAX,
            0 <= y <= height,
            buffer.wf(),
            buffer@.width == width,
            buffer@.height == height,
            forall|i: int| 0 <= i < y * width ==> #[trigger] buffer@.pixels[i] == decoded_pixels(b)[i],
        decreases height - y,
    {
        let mut x: usize = 0;
        while x < width
            invariant
                b == raw@,
                width == image_width(b),
                height == image_height(b),
                count == width * height,
                data_len == 3 * count,
                offset == data_offset(b),
                offset + data_len <= b.len(),
                offset + data_len <= usize::MAX,
            offset + data_len <= usize::MAX,
                0 <= y < height,
                0 <= x <= width,
                buffer.wf(),
                buffer@.width == width,
                buffer@.height == height,
                forall|i: int|
                    0 <= i < y * width + x ==> #[trigger] buffer@.pixels[i] == decoded_pixels(b)[i],
            decreases width - x,
        {
            proof {
                lemma_index_in_bounds(x as int, y as int, width as int, height as int);
            }
            let index: usize = y * width + x;
            let at: usize = offset + index * 3;
            let pixel = Pixel::new(raw[at + 2], raw[at + 1], raw[at]);
            match buffer.pixel_at(x, y) {
                Some(p) => {
                    *p = pixel;
                },
                None => {},
            }
            x = x + 1;
        }
        proof {
            assert((y + 1) * width == y * width + width) by (nonlinear_arith);
        }
        y = y + 1;
    }
    proof {
        assert(height * width == width * height) by (nonlinear_arith);
        assert(buffer@.pixels =~= decoded_pixels(b));
    }
    Ok(buffer)
}

/// A successful decode has the header's width and height and exactly one pixel per coordinate.
pub proof fn lemma_decoded_dimensions(b: Seq<u8>, fb: FrameBuffer)
    requires
        decodes_as(b, Ok(fb)),
    ensures
        fb@.width == image_width(b),
        fb@.height == image_height(b),
        fb@.pixels.len() == image_width(b) * image_height(b),
{
}

/// Decoding the same bytes twice gives the same outcome: the same error, or frames with the
/// same dimensions and pixels.
pub proof fn lemma_decode_deterministic(
    b1: Seq<u8>,
    b2: Seq<u8>,
    r1: Result<FrameBuffer, DecodeError>,
    r2: Result<FrameBuffer, DecodeError>,
)
    requires
        b1 == b2,
        decodes_as(b1, r1),
        decodes_as(b2, r2),
    ensures
        r1 is Ok <==> r2 is Ok,
        r1 is Ok ==> r1->Ok_0@ == r2->Ok_0@,
        r1 is Err ==> r1 == r2,
{
}

/// An image whose header gives any depth but 24 bits per pixel is refused as unsupported,
/// with no frame.
pub proof fn lemma_unsupported_depth(b: Seq<u8>, r: Result<FrameBuffer, DecodeError>)
    requires
        b.len() >= HEADER_LEN,
        bits_per_pixel(b) != SUPPORTED_BITS_PER_PIXEL,
        decodes_as(b, r),
    ensures
        r == Err::<FrameBuffer, DecodeError>(DecodeError::UnsupportedFormat),
{
}

/// A decodable image cut off anywhere before the end of its declared pixel data is refused
/// as truncated.
pub proof fn lemma_cut_short(b: Seq<u8>, m: nat, r: Result<FrameBuffer, DecodeError>)
    requires
        decode_error(b) is None,
        m < data_offset(b) + pixel_data_len(b),
        decodes_as(b.subrange(0, m as int), r),
    ensures
        r == Err::<FrameBuffer, DecodeError>(DecodeError::Truncated),
{
    let c = b.subrange(0, m as int);
    if m >= HEADER_LEN {
        assert(bits_per_pixel(c) == bits_per_pixel(b));
        assert(data_offset(c) == data_offset(b));
        assert(image_width(c) == image_width(b));
        assert(image_height(c) == image_height(b));
    }
}

} // verus!
