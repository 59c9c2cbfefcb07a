//! Grayscale PNG encoding of a finished pixel buffer, in memory.
use vstd::prelude::*;

verus! {

#[verifier::external_type_specification]
#[verifier::external_body]
pub struct ExIoError(std::io::Error);

/// The PNG stream that the encoder produces for an 8-bit grayscale image of
/// `width` by `height` pixels.
pub uninterp spec fn png_gray8(pixels: Seq<u8>, width: u32, height: u32) -> Seq<u8>;

/// Why a buffer could not be encoded.
#[derive(Clone, Copy, Debug, PartialEq, Eq, Structural)]
pub enum EncodeError {
    /// A side of the image does not fit the format's 32-bit fields.
    TooLarge,
    /// The buffer does not hold one byte per pixel.
    LengthMismatch,
    /// The encoder refused the image.
    Encoder,
}

/// Relies on image::png::PNGEncoder::encode with ColorType::Gray(8), writing
/// into a Vec: the stream depends on the pixels and the two sides alone, and
/// with one byte per pixel given the only failure is an image without pixels
/// (png's write_image_data, "not enough image data provided").
#[verifier::external_body]
fn encode_gray8(pixels: &[u8], width: u32, height: u32) -> (r: Result<Vec<u8>, std::io::Error>)
    requires
        pixels@.len() == width * height,
    ensures
        r is Ok <==> width * height > 0,
        r matches Ok(bytes) ==> bytes@ == png_gray8(pixels@, width, height),
{
    let mut out: Vec<u8> = Vec::new();
    let encoder = image::png::PNGEncoder::new(&mut out);
    match encoder.encode(pixels, width, height, image::ColorType::Gray(8)) {
        Ok(()) => Ok(out),
        Err(e) => Err(e),
    }
}

/// Encodes a row-major buffer of `width` by `height` gray levels as a PNG
/// stream.
pub fn encode_png(pixels: &[u8], width: usize, height: usize) -> (r: Result<Vec<u8>, EncodeError>)
    ensures
        r == Err::<Vec<u8>, EncodeError>(EncodeError::TooLarge) <==> width > u32::MAX || height
            > u32::MAX,
        r == Err::<Vec<u8>, EncodeError>(EncodeError::LengthMismatch) <==> width <= u32::MAX
            && height <= u32::MAX && pixels@.len() != width * height,
        r == Err::<Vec<u8>, EncodeError>(EncodeError::Encoder) <==> width <= u32::MAX && height
            <= u32::MAX && pixels@.len() == width * height && width * height == 0,
        r is Ok <==> width <= u32::MAX && height <= u32::MAX && pixels@.len() == width * height
            && width * height > 0,
        r matches Ok(bytes) ==> bytes@ == png_gray8(pixels@, width as u32, height as u32),
{
    if width > u32::MAX as usize || height > u32::MAX as usize {
        return Err(EncodeError::TooLarge);
    }
    let total = pixels.len();
    match width.checked_mul(height) {
        Some(size) if size == total => {},
        _ => {
            return Err(EncodeError::LengthMismatch);
        },
    }
    match encode_gray8(pixels, width as u32, height as u32) {
        Ok(bytes) => Ok(bytes),
        Err(_) => Err(EncodeError::Encoder),
    }
}

} // verus!
