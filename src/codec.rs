//! The container codec boundary: decoding image files into RGBA buffers and
//! encoding buffers as PNG.
use crate::buffer::{rgba_len, PixelBuffer};
use crate::error::PipelineError;
use image::ImageEncoder;
use vstd::prelude::*;

verus! {

#[verifier::external_type_specification]
#[verifier::external_body]
pub struct ExImageError(image::ImageError);

/// The PNG file that encodes the `w` by `h` RGBA raster `px`, if the encoder
/// accepts it.
pub uninterp spec fn png_encoded(w: u32, h: u32, px: Seq<u8>) -> Option<Seq<u8>>;

/// Relies on `image::load_from_memory` and `DynamicImage::to_rgba8` for
/// width, height and RGBA bytes. Nothing is assumed of the outcome: the
/// format guess and the decoder go through process-wide hook registries.
#[verifier::external_body]
fn decode_rgba(bytes: &[u8]) -> (r: Result<(u32, u32, Vec<u8>), image::ImageError>) {
    let img = image::load_from_memory(bytes)?.to_rgba8();
    Ok((img.width(), img.height(), img.into_raw()))
}

/// Relies on `PngEncoder::write_image` with `ExtendedColorType::Rgba8`,
/// writing into a `Vec<u8>`; it panics unless the length is
/// `w * h * 4`, and its outcome depends on the raster alone.
#[verifier::external_body]
fn encode_png(w: u32, h: u32, px: &[u8]) -> (r: Result<Vec<u8>, image::ImageError>)
    requires
        px@.len() == rgba_len(w as int, h as int),
    ensures
        r matches Ok(v) ==> png_encoded(w, h, px@) == Some(v@),
        r is Err ==> png_encoded(w, h, px@) is None,
{
    let mut out: Vec<u8> = Vec::new();
    image::codecs::png::PngEncoder::new(&mut out).write_image(
        px,
        w,
        h,
        image::ExtendedColorType::Rgba8,
    )?;
    Ok(out)
}

/// What encoding a raster as PNG yields.
pub open spec fn encode_result(w: u32, h: u32, px: Seq<u8>) -> Result<Seq<u8>, PipelineError> {
    match png_encoded(w, h, px) {
        None => Err(PipelineError::IoFailure),
        Some(v) => Ok(v),
    }
}

/// Decodes an image file held in memory into an RGBA buffer. Bytes the
/// decoder refuses, or a decoded raster whose byte count does not match its
/// size, give `UnsupportedFormat`.
pub fn decode(bytes: &[u8]) -> (r: Result<PixelBuffer, PipelineError>)
    ensures
        r matches Ok(b) ==> b.wf(),
        r matches Err(e) ==> e == PipelineError::UnsupportedFormat,
{
    match decode_rgba(bytes) {
        Err(_) => Err(PipelineError::UnsupportedFormat),
        Ok((w, h, data)) => match PixelBuffer::new(data, w, h) {
            Ok(b) => Ok(b),
            Err(_) => Err(PipelineError::UnsupportedFormat),
        },
    }
}

/// Encodes the buffer as a PNG file.
pub fn encode(image: &PixelBuffer) -> (r: Result<Vec<u8>, PipelineError>)
    requires
        image.wf(),
    ensures
        r matches Ok(v) ==> encode_result(image.width, image.height, image.data@) == Ok::<
            _,
            PipelineError,
        >(v@),
        r matches Err(e) ==> encode_result(image.width, image.height, image.data@) == Err::<
            Seq<u8>,
            _,
        >(e),
{
    match encode_png(image.width, image.height, image.data.as_slice()) {
        Err(_) => Err(PipelineError::IoFailure),
        Ok(v) => Ok(v),
    }
}

} // verus!
