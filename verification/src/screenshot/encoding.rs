//! Encoding a screenshot into the bytes of a PNG or JPEG file with the `image` crate. JPEG
//! has no transparency, so its pixels are first flattened over white.
use vstd::prelude::*;
use crate::screenshot::config::{clamped, ImageFormat};
use crate::screenshot::output::{flatten_alpha, flattened, jpeg_quality};
use image::codecs::jpeg::JpegEncoder;
use image::codecs::png::PngEncoder;
use image::{ExtendedColorType, ImageEncoder};

verus! {

/// The eight bytes that every PNG file starts with.
pub open spec fn png_signature() -> Seq<u8> {
    seq![137u8, 80u8, 78u8, 71u8, 13u8, 10u8, 26u8, 10u8]
}

/// Whether `bytes` starts with `prefix`.
pub open spec fn starts_with_bytes(bytes: Seq<u8>, prefix: Seq<u8>) -> bool {
    bytes.len() >= prefix.len() && bytes.subrange(0, prefix.len() as int) == prefix
}

/// The start-of-image marker that every JPEG file starts with.
pub open spec fn jpeg_start() -> Seq<u8> {
    seq![0xFFu8, 0xD8u8]
}

/// The bytes that `PngEncoder` writes for `width × height` 8-bit RGBA pixels.
pub uninterp spec fn png_encoding(rgba: Seq<u8>, width: u32, height: u32) -> Seq<u8>;

/// The bytes that `JpegEncoder::new_with_quality(.., quality)` writes for `width × height`
/// 8-bit RGB pixels.
pub uninterp spec fn jpeg_encoding(rgb: Seq<u8>, width: u32, height: u32, quality: u8) -> Seq<u8>;

/// Whether the JPEG encoder takes a width and height: each from 1 to 65535.
pub open spec fn jpeg_size(width: u32, height: u32) -> bool {
    1 <= width <= 65535 && 1 <= height <= 65535
}

/// `PngEncoder::write_image` of `rgba` as 8-bit RGBA into a `Vec<u8>`, handing out the
/// error's message on failure. `write_image` panics when the buffer does not hold
/// `width × height` pixels, which `requires` rules out. The `png` crate refuses a zero
/// width or height; otherwise, writing into memory, nothing else can fail, and the bytes
/// are a function of the pixels and the size that start with the PNG signature.
#[verifier::external_body]
fn png_bytes(rgba: &[u8], width: u32, height: u32) -> (r: Result<Vec<u8>, String>)
    requires
        rgba@.len() == width * height * 4,
    ensures
        width == 0 || height == 0 ==> r is Err,
        width > 0 && height > 0 ==> r is Ok,
        r matches Ok(bytes) ==> bytes@ == png_encoding(rgba@, width, height),
        r matches Ok(bytes) ==> starts_with_bytes(bytes@, png_signature()),
{
    let mut out: Vec<u8> = Vec::new();
    match PngEncoder::new(&mut out).write_image(rgba, width, height, ExtendedColorType::Rgba8) {
        Ok(()) => Ok(out),
        Err(error) => Err(error.to_string()),
    }
}

/// `JpegEncoder::new_with_quality(.., quality).encode` of `rgb` as 8-bit RGB into a
/// `Vec<u8>`, handing out the error's message on failure. `encode` panics when the buffer
/// does not hold `width × height` pixels, which `requires` rules out. It refuses a width or
/// height that is zero or above 65535; otherwise, writing into memory, nothing else can
/// fail, and the bytes are a function of the pixels, the size and the quality that start
/// with the start-of-image marker.
#[verifier::external_body]
fn jpeg_bytes(rgb: &[u8], width: u32, height: u32, quality: u8) -> (r: Result<Vec<u8>, String>)
    requires
        rgb@.len() == width * height * 3,
    ensures
        !jpeg_size(width, height) ==> r is Err,
        jpeg_size(width, height) ==> r is Ok,
        r matches Ok(bytes) ==> bytes@ == jpeg_encoding(rgb@, width, height, quality),
        r matches Ok(bytes) ==> starts_with_bytes(bytes@, jpeg_start()),
{
    let mut out: Vec<u8> = Vec::new();
    match JpegEncoder::new_with_quality(&mut out, quality).encode(rgb, width, height, ExtendedColorType::Rgb8) {
        Ok(()) => Ok(out),
        Err(error) => Err(error.to_string()),
    }
}

/// The bytes of an image file holding the `width × height` RGBA pixels `rgba`: PNG as
/// they are, or JPEG at the quality setting (clamped to 1 … 100) after flattening the
/// pixels over white. The encoder's error message comes back on failure, which happens
/// exactly for a size the format does not take.
pub fn encode_image(format: ImageFormat, rgba: &[u8], width: u32, height: u32, quality: u8) -> (r: Result<Vec<u8>, String>)
    requires
        rgba@.len() == width * height * 4,
    ensures
        match format {
            ImageFormat::Png => if width > 0 && height > 0 {
                r matches Ok(bytes) && bytes@ == png_encoding(rgba@, width, height) && starts_with_bytes(
                    bytes@,
                    png_signature(),
                )
            } else {
                r is Err
            },
            ImageFormat::Jpeg => if jpeg_size(width, height) {
                r matches Ok(bytes) && bytes@ == jpeg_encoding(
                    flattened(rgba@),
                    width,
                    height,
                    clamped(quality, 1, 100),
                ) && starts_with_bytes(bytes@, jpeg_start())
            } else {
                r is Err
            },
        },
{
    match format {
        ImageFormat::Png => png_bytes(rgba, width, height),
        ImageFormat::Jpeg => {
            let rgb = flatten_alpha(rgba);
            assert(rgb@.len() == width * height * 3) by {
                let n = width * height;
                assert((n * 4) / 4 == n) by (nonlinear_arith);
                assert(flattened(rgba@).len() == (rgba@.len() / 4) * 3);
            }
            jpeg_bytes(rgb.as_slice(), width, height, jpeg_quality(quality))
        },
    }
}

} // verus!
