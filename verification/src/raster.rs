//! Icons in the canonical raster format: lossless, three samples of eight
//! bits for each pixel, no alpha channel.
//!
//! An icon that begins with the signature of a JPEG stream is decoded and
//! encoded anew. Any other icon is taken to be in the canonical format
//! already.

use vstd::prelude::*;
use crate::error::describe;
use crate::error::says;
use crate::error::IpaError;

verus! {

/// The pixels of the image that the JPEG codec decodes from `bytes`, row by
/// row, with the image's width and height, or `None` where it refuses them.
pub uninterp spec fn jpeg_image(bytes: Seq<u8>) -> Option<(Seq<u8>, u16, u16)>;

/// The bytes that the PNG codec writes for an image of `width` by `height`
/// pixels whose samples, three of eight bits for each pixel, are `pixels`,
/// or `None` where it refuses them.
pub uninterp spec fn rgb8_png(width: u32, height: u32, pixels: Seq<u8>) -> Option<Seq<u8>>;

/// `bytes` begin with the signature of a JPEG stream.
pub open spec fn has_jpeg_signature(bytes: Seq<u8>) -> bool {
    &&& bytes.len() >= 3
    &&& bytes[0] == 0xFF
    &&& bytes[1] == 0xD8
    &&& bytes[2] == 0xFF
}

/// How an image in the canonical format begins: with the signature of a PNG
/// stream.
pub open spec fn png_signature() -> Seq<u8> {
    seq![137u8, 80u8, 78u8, 71u8, 13u8, 10u8, 26u8, 10u8]
}

/// `pixels` are three samples for each pixel of an image of `width` by
/// `height` pixels.
pub open spec fn is_rgb8(pixels: Seq<u8>, width: int, height: int) -> bool {
    pixels.len() == 3 * width * height
}

/// The canonical form of a decoded image, where the codecs give one. Pixels
/// that are not three samples for each pixel have none.
pub open spec fn encoded(image: Option<(Seq<u8>, u16, u16)>) -> Option<Seq<u8>> {
    match image {
        Some((pixels, width, height)) => if is_rgb8(pixels, width as int, height as int) {
            rgb8_png(width as u32, height as u32, pixels)
        } else {
            None
        },
        None => None,
    }
}

/// The canonical form of an icon: the icon itself unless it is a JPEG
/// stream, else what the codecs make of it.
pub open spec fn normalized(bytes: Seq<u8>) -> Option<Seq<u8>> {
    if has_jpeg_signature(bytes) {
        encoded(jpeg_image(bytes))
    } else {
        Some(bytes)
    }
}

/// `jpeg_decoder::Decoder::new` on the bytes, then `decode` and `info`: the
/// pixels and the size that `jpeg_image` names for these bytes. After a
/// successful `decode` the size is known.
#[verifier::external_body]
fn jpeg_decode(bytes: &[u8]) -> (r: Result<(Vec<u8>, Option<(u16, u16)>), jpeg_decoder::Error>)
    ensures
        match r {
            Ok((pixels, size)) => size matches Some((width, height)) && jpeg_image(bytes@) == Some(
                (pixels@, width, height),
            ),
            Err(_) => jpeg_image(bytes@) is None,
        },
{
    let mut decoder = jpeg_decoder::Decoder::new(bytes);
    let pixels = decoder.decode()?;
    Ok((pixels, decoder.info().map(|info| (info.width, info.height))))
}

/// `png::Encoder::new` into a buffer, with the colour type `Rgb` and the bit
/// depth `Eight`, then `write_header`, `write_image_data` and `finish`: the
/// bytes that `rgb8_png` names for this image, which begin with the
/// signature of a PNG stream, the first thing that the codec writes. The
/// codec multiplies the length of a row by the height before it looks at the
/// pixels, so the pixels have to be three samples for each pixel.
#[verifier::external_body]
fn png_encode_rgb8(width: u32, height: u32, pixels: &[u8]) -> (r: Result<
    Vec<u8>,
    png::EncodingError,
>)
    requires
        is_rgb8(pixels@, width as int, height as int),
    ensures
        match r {
            Ok(bytes) => rgb8_png(width, height, pixels@) == Some(bytes@)
                && png_signature().is_prefix_of(bytes@),
            Err(_) => rgb8_png(width, height, pixels@) is None,
        },
{
    let mut bytes = Vec::new();
    let mut encoder = png::Encoder::new(&mut bytes, width, height);
    encoder.set_color(png::ColorType::Rgb);
    encoder.set_depth(png::BitDepth::Eight);
    let mut writer = encoder.write_header()?;
    writer.write_image_data(pixels)?;
    writer.finish()?;
    Ok(bytes)
}

/// The message for an icon that cannot be decoded.
pub const DECODE_FAILED: &'static str = "Failed to decode icon";

/// The message for an icon that cannot be encoded.
pub const ENCODE_FAILED: &'static str = "Failed to write icon2";

/// Why pixels are refused before the codec sees them.
pub const NOT_RGB8: &'static str = "the pixels are not three samples of eight bits for each pixel";

/// Whether an icon begins with the signature of a JPEG stream.
pub fn jpeg_signature(bytes: &[u8]) -> (r: bool)
    ensures
        r == has_jpeg_signature(bytes@),
{
    bytes.len() >= 3 && bytes[0] == 0xFF && bytes[1] == 0xD8 && bytes[2] == 0xFF
}

/// Encodes decoded pixels in the canonical format. The result begins with
/// the signature of a PNG stream.
pub fn encode_rgb8(pixels: &[u8], width: u16, height: u16) -> (r: Result<Vec<u8>, IpaError>)
    ensures
        match r {
            Ok(bytes) => encoded(Some((pixels@, width, height))) == Some(bytes@)
                && png_signature().is_prefix_of(bytes@),
            Err(error) => encoded(Some((pixels@, width, height))) is None
                && error is IconConversion && says(error, ENCODE_FAILED@),
        },
{
    assert(0 <= width * height <= 65535 * 65535) by (nonlinear_arith)
        requires
            0 <= width <= 65535,
            0 <= height <= 65535,
    ;
    let pixel_count: u64 = (width as u64) * (height as u64);
    let samples: u64 = 3 * pixel_count;
    assert(3 * width * height == samples) by (nonlinear_arith)
        requires
            samples == 3 * pixel_count,
            pixel_count == width * height,
    ;
    if pixels.len() as u64 != samples {
        return Err(IpaError::IconConversion(describe(ENCODE_FAILED, NOT_RGB8)));
    }
    match png_encode_rgb8(width as u32, height as u32, pixels) {
        Ok(bytes) => Ok(bytes),
        Err(cause) => Err(
            IpaError::IconConversion(describe(ENCODE_FAILED, cause.to_string().as_str())),
        ),
    }
}

/// Brings an icon into the canonical format. An icon that is no JPEG stream
/// is returned as it is; one that is comes back as a PNG stream. Either way
/// a second conversion leaves the result as it is.
pub fn convert_icon_to_png(icon_bytes: &[u8]) -> (r: Result<Vec<u8>, IpaError>)
    ensures
        match r {
            Ok(bytes) => {
                &&& normalized(icon_bytes@) == Some(bytes@)
                &&& has_jpeg_signature(icon_bytes@) ==> png_signature().is_prefix_of(bytes@)
                &&& normalized(bytes@) == Some(bytes@)
            },
            Err(error) => normalized(icon_bytes@) is None && error is IconConversion && (says(
                error,
                DECODE_FAILED@,
            ) || says(error, ENCODE_FAILED@)),
        },
        !has_jpeg_signature(icon_bytes@) ==> r is Ok && r->Ok_0@ == icon_bytes@,
{
    if jpeg_signature(icon_bytes) {
        match jpeg_decode(icon_bytes) {
            Ok((pixels, Some((width, height)))) => encode_rgb8(pixels.as_slice(), width, height),
            Ok((_, None)) => Err(
                IpaError::IconConversion(describe(DECODE_FAILED, "the image has no size")),
            ),
            Err(cause) => Err(
                IpaError::IconConversion(describe(DECODE_FAILED, cause.to_string().as_str())),
            ),
        }
    } else {
        Ok(copy_of(icon_bytes))
    }
}

/// A copy of `bytes`.
pub fn copy_of(bytes: &[u8]) -> (r: Vec<u8>)
    ensures
        r@ == bytes@,
{
    let mut r: Vec<u8> = Vec::new();
    r.extend_from_slice(bytes);
    r
}

} // verus!
