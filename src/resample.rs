//! Resampling to new dimensions with a Lanczos (radius 3) filter.
use crate::buffer::{rgba_len, PixelBuffer};
use crate::error::PipelineError;
use vstd::prelude::*;

verus! {

/// Every pixel of the packed RGBA sequence `s` equals its first pixel.
pub open spec fn uniform(s: Seq<u8>) -> bool {
    forall|i: int| 0 <= i < s.len() ==> #[trigger] s[i] == s[i % 4]
}

/// Neither dimension shrinks by more than a factor of 256.
pub open spec fn moderate_shrink(w: u32, h: u32, nw: u32, nh: u32) -> bool {
    w <= 256 * (nw as int) && h <= 256 * (nh as int)
}

/// What Lanczos3 resampling of the `w` by `h` raster `px` to `nw` by `nh`
/// is known to give, whatever the platform's floating point: `nw * nh`
/// pixels; the input itself when the size does not change; all zeros when
/// the input is empty; and a single-colour image of the same colour from a
/// single-colour input, unless it shrinks by more than a factor of 256.
pub open spec fn resampled(w: u32, h: u32, px: Seq<u8>, nw: u32, nh: u32, r: Seq<u8>) -> bool {
    &&& r.len() == rgba_len(nw as int, nh as int)
    &&& (nw == w && nh == h && w > 0 && h > 0) ==> r == px
    &&& (w == 0 || h == 0) ==> forall|i: int| 0 <= i < r.len() ==> r[i] == 0
    &&& (w > 0 && h > 0 && moderate_shrink(w, h, nw, nh) && uniform(px)) ==> forall|i: int|
        0 <= i < r.len() ==> r[i] == px[i % 4]
}

/// Relies on `image::imageops::resize` with `FilterType::Lanczos3`: the
/// result is sized by `ImageBuffer::new(nw, nh)`; an empty input gives that
/// zero-filled buffer, and an unchanged size gives a copy of the input.
/// Each output sample is a weighted sum whose weights are divided by their
/// own sum, then clamped and rounded to nearest: on a single-colour input
/// the f32 error over at most about 1540 taps per axis (a shrink of at most
/// 256) stays far below one half, so the colour comes back unchanged.
#[verifier::external_body]
fn lanczos3_resize(w: u32, h: u32, px: &[u8], nw: u32, nh: u32) -> (r: Vec<u8>)
    requires
        px@.len() == rgba_len(w as int, h as int),
        0 < nw,
        0 < nh,
        rgba_len(nw as int, nh as int) <= usize::MAX,
    ensures
        r@.len() == rgba_len(nw as int, nh as int),
        (nw == w && nh == h && w > 0 && h > 0) ==> r@ == px@,
        (w == 0 || h == 0) ==> forall|i: int| 0 <= i < r@.len() ==> r@[i] == 0,
        (w > 0 && h > 0 && moderate_shrink(w, h, nw, nh) && uniform(px@)) ==> forall|i: int|
            0 <= i < r@.len() ==> r@[i] == px@[i % 4],
{
    let img = image::RgbaImage::from_raw(w, h, px.to_vec()).expect("length checked by caller");
    image::imageops::resize(&img, nw, nh, image::imageops::FilterType::Lanczos3).into_raw()
}

/// Resamples the image to `new_width` by `new_height` with a Lanczos3
/// filter, every channel alike. A zero target dimension, or one whose
/// raster could not be addressed, is rejected.
pub fn resize(image: &PixelBuffer, new_width: u32, new_height: u32) -> (r: Result<
    PixelBuffer,
    PipelineError,
>)
    requires
        image.wf(),
    ensures
        r.is_ok() <==> (0 < new_width && 0 < new_height && rgba_len(
            new_width as int,
            new_height as int,
        ) <= usize::MAX),
        r matches Err(e) ==> e == PipelineError::InvalidDimensions,
        r matches Ok(b) ==> b.width == new_width && b.height == new_height && b.wf() && resampled(
            image.width,
            image.height,
            image.data@,
            new_width,
            new_height,
            b.data@,
        ),
{
    if new_width == 0 || new_height == 0 {
        return Err(PipelineError::InvalidDimensions);
    }
    proof {
        crate::buffer::lemma_dims_product_bound(new_width, new_height);
    }
    let len: u128 = new_width as u128 * new_height as u128 * 4;
    if len > usize::MAX as u128 {
        return Err(PipelineError::InvalidDimensions);
    }
    let data = lanczos3_resize(
        image.width,
        image.height,
        image.data.as_slice(),
        new_width,
        new_height,
    );
    Ok(PixelBuffer { width: new_width, height: new_height, data })
}

} // verus!
