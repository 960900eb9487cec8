//! Screenshots as PNG files.

use vstd::prelude::*;

use crate::renderer::{decode_capture_rows, CaptureError, CaptureFormat};
#[allow(unused_imports)]
use crate::pixels::{packing_keeps_every_pixel, rows_fit};
#[allow(unused_imports)]
use crate::renderer::{capture_error, captured_pixels};

verus! {

/// The error of the PNG encoder.
#[verifier::external_type_specification]
#[verifier::external_body]
pub struct ExEncodingError(png::EncodingError);

/// The PNG file of an image of four-byte RGBA pixels.
pub uninterp spec fn png_file(width: u32, height: u32, pixels: Seq<u8>) -> Seq<u8>;

/// `length` bytes hold just the pixels of an image with a size.
pub open spec fn holds_image(width: u32, height: u32, length: int) -> bool {
    width > 0 && height > 0 && length == width * height * 4
}

/// Encodes an image in memory with [`png::Encoder`], through `write_header`,
/// `write_image_data` and `finish`, with eight bits for each of red, green,
/// blue and alpha.
///
/// Believed of the encoder: writing to memory, it refuses just the images
/// without a width or a height and those whose pixels have another length than
/// `width * height * 4`, and what it writes depends on the image alone. Images
/// whose length is beyond what an address can count would overflow in it, and
/// are left out.
#[verifier::external_body]
fn encode_rgba(width: u32, height: u32, pixels: &[u8]) -> (file: Result<
    Vec<u8>,
    png::EncodingError,
>)
    requires
        width * 4 < usize::MAX,
        width * height * 4 <= usize::MAX,
    ensures
        file is Ok <==> holds_image(width, height, pixels@.len() as int),
        file matches Ok(bytes) ==> bytes@ == png_file(width, height, pixels@),
{
    let mut file = Vec::new();
    let mut encoder = png::Encoder::new(&mut file, width, height);
    encoder.set_color(png::ColorType::Rgba);
    encoder.set_depth(png::BitDepth::Eight);
    let mut writer = encoder.write_header()?;
    writer.write_image_data(pixels)?;
    writer.finish()?;
    Ok(file)
}

/// Why an image cannot be written as a PNG file.
#[derive(Clone, Copy, Debug, PartialEq, Eq, Structural)]
pub enum PngError {
    /// The image has no width or no height.
    Header,
    /// The pixels have another length than the image.
    Pixels,
}

/// Encodes four-byte RGBA pixels as a PNG file.
pub fn encode_png(width: u32, height: u32, pixels: &[u8]) -> (file: Result<Vec<u8>, PngError>)
    ensures
        match file {
            Ok(bytes) => holds_image(width, height, pixels@.len() as int) && bytes@ == png_file(
                width,
                height,
                pixels@,
            ),
            Err(PngError::Header) => width == 0 || height == 0,
            Err(PngError::Pixels) => width > 0 && height > 0 && pixels@.len() != width * height * 4,
        },
{
    if width == 0 || height == 0 {
        return Err(PngError::Header);
    }
    let row: u128 = width as u128 * 4;
    proof {
        assert(row * height <= 0xffff_ffff * 4 * 0xffff_ffff) by (nonlinear_arith)
            requires
                row <= 0xffff_ffff * 4,
                height <= 0xffff_ffff,
        ;
        assert(row * height == width * height * 4) by (nonlinear_arith)
            requires
                row == width * 4,
        ;
        assert(width * 4 <= width * height * 4) by (nonlinear_arith)
            requires
                height >= 1,
        ;
    }
    let length: usize = pixels.len();
    if row * height as u128 != length as u128 {
        return Err(PngError::Pixels);
    }
    assert(usize::MAX % 4 == 3);
    match encode_rgba(width, height, pixels) {
        Ok(file) => Ok(file),
        Err(_) => Err(PngError::Pixels),
    }
}

/// Why a screenshot cannot be written as a PNG file.
#[derive(Clone, Copy, Debug, PartialEq, Eq, Structural)]
pub enum CaptureFileError {
    Decode(CaptureError),
    Encode(PngError),
}

/// Turns a screenshot as it was read back from the GPU into a PNG file.
pub fn encode_capture(
    mapped: &[u8],
    width: u32,
    height: u32,
    padded_bytes_per_row: u32,
    format: CaptureFormat,
) -> (file: Result<Vec<u8>, CaptureFileError>)
    requires
        width * 4 <= usize::MAX,
        width > 0 || padded_bytes_per_row > 0,
    ensures
        ({
            let error = capture_error(
                mapped@.len() as int,
                width,
                height,
                padded_bytes_per_row,
                format,
            );
            match file {
                Ok(bytes) => error is None && width > 0 && height > 0 && bytes@ == png_file(
                    width,
                    height,
                    captured_pixels(mapped@, width, height, padded_bytes_per_row, format),
                ),
                Err(CaptureFileError::Decode(reason)) => error == Some(reason),
                Err(CaptureFileError::Encode(reason)) => error is None && reason is Header && (width
                    == 0 || height == 0),
            }
        }),
{
    let pixels = match decode_capture_rows(mapped, width, height, padded_bytes_per_row, format) {
        Ok(pixels) => pixels,
        Err(error) => {
            return Err(CaptureFileError::Decode(error));
        },
    };
    proof {
        decoded_captures_hold_their_image(mapped@, width, height, padded_bytes_per_row, format);
    }
    match encode_png(width, height, &pixels) {
        Ok(file) => Ok(file),
        Err(error) => Err(CaptureFileError::Encode(error)),
    }
}

/// A screenshot that decodes has just the pixels of its size, so that it can be
/// written unless it is empty.
pub proof fn decoded_captures_hold_their_image(
    mapped: Seq<u8>,
    width: u32,
    height: u32,
    padded: u32,
    format: CaptureFormat,
)
    requires
        capture_error(mapped.len() as int, width, height, padded, format) is None,
    ensures
        captured_pixels(mapped, width, height, padded, format).len() == width * height * 4,
{
    if height > 0 {
        assert((height - 1) * padded + width * 4 <= padded * height) by (nonlinear_arith)
            requires
                height >= 1,
                width * 4 <= padded,
        ;
    }
    packing_keeps_every_pixel(mapped, padded as int, width * 4, height as nat);
    assert(height * (width * 4) == width * height * 4) by (nonlinear_arith);
}

/// Pixels are written just if they are those of a whole image that is not empty,
/// four bytes for each pixel; an empty image and a wrong number of bytes are told
/// apart.
pub proof fn whole_images_are_written(
    width: u32,
    height: u32,
    pixels: &[u8],
    file: Result<Vec<u8>, PngError>,
)
    requires
        call_ensures(encode_png, (width, height, pixels), file),
    ensures
        file is Ok ==> width > 0 && height > 0 && pixels@.len() == width * height * 4,
        width > 0 && height > 0 && pixels@.len() == width * height * 4 ==> file is Ok,
        file matches Err(error) ==> (error is Header <==> width == 0 || height == 0),
        file matches Ok(bytes) ==> bytes@ == png_file(width, height, pixels@),
{
}

} // verus!
