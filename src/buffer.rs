use crate::error::PipelineError;
use vstd::prelude::*;

verus! {

/// An RGBA raster: `width * height` pixels, row-major, four bytes per pixel
/// in the order R, G, B, A.
pub struct PixelBuffer {
    pub width: u32,
    pub height: u32,
    pub data: Vec<u8>,
}

/// Number of bytes a `w` by `h` RGBA raster occupies.
pub open spec fn rgba_len(w: int, h: int) -> int {
    w * h * 4
}

/// Byte `c` (0 = R ... 3 = A) of pixel `p` of a packed RGBA sequence.
pub open spec fn chan(s: Seq<u8>, p: int, c: int) -> u8 {
    s[4 * p + c]
}

/// The product of two `u32` dimensions fits comfortably in 64 bits.
pub proof fn lemma_dims_product_bound(w: u32, h: u32)
    ensures
        0 <= w as int * h as int <= 0xffff_fffe_0000_0001,
{
    assert(0 <= w as int * h as int <= 0xffff_fffe_0000_0001) by (nonlinear_arith)
        requires
            0 <= w <= 0xffff_ffff,
            0 <= h <= 0xffff_ffff,
    ;
}

/// Pixel `p` of a `w` by `h` raster lies in row `p / w`, column `p % w`, and
/// its whole row lies inside the raster.
pub proof fn lemma_pixel_coords(p: int, w: int, h: int)
    requires
        0 <= p < w * h,
        0 < w,
    ensures
        0 <= p % w < w,
        0 <= p / w < h,
        p == (p / w) * w + p % w,
        p - p % w + w <= w * h,
{
    vstd::arithmetic::div_mod::lemma_fundamental_div_mod(p, w);
    vstd::arithmetic::div_mod::lemma_mod_pos_bound(p, w);
    vstd::arithmetic::div_mod::lemma_div_pos_is_pos(p, w);
    let q = p / w;
    let x = p % w;
    assert(q < h && q * w == w * q && p - x + w <= w * h) by (nonlinear_arith)
        requires
            p == w * q + x,
            0 <= x < w,
            p < w * h,
            0 <= q,
    ;
}

/// Column `x`, row `y` of a `w` by `h` raster is pixel `y * w + x`, inside it.
pub proof fn lemma_grid_index(x: int, y: int, w: int, h: int)
    requires
        0 <= x < w,
        0 <= y < h,
    ensures
        0 <= y * w + x < w * h,
{
    assert(0 <= y * w + x < w * h) by (nonlinear_arith)
        requires
            0 <= x < w,
            0 <= y < h,
    ;
}

impl View for PixelBuffer {
    type V = (u32, u32, Seq<u8>);

    open spec fn view(&self) -> (u32, u32, Seq<u8>) {
        (self.width, self.height, self.data@)
    }
}

impl PixelBuffer {
    /// The buffer holds exactly `width * height * 4` bytes.
    pub open spec fn wf(&self) -> bool {
        self.data@.len() == rgba_len(self.width as int, self.height as int)
    }

    /// Builds a buffer from caller-supplied bytes, which must hold exactly
    /// `width * height * 4` of them.
    pub fn new(data: Vec<u8>, width: u32, height: u32) -> (r: Result<PixelBuffer, PipelineError>)
        ensures
            r.is_ok() <==> data@.len() == rgba_len(width as int, height as int),
            r matches Ok(b) ==> b.width == width && b.height == height && b.data@ == data@,
            r matches Err(e) ==> e == PipelineError::InvalidDimensions,
    {
        proof {
            lemma_dims_product_bound(width, height);
        }
        let expected: u128 = width as u128 * height as u128 * 4;
        if data.len() as u128 != expected {
            Err(PipelineError::InvalidDimensions)
        } else {
            Ok(PixelBuffer { width, height, data })
        }
    }

    /// `(width, height)`.
    pub fn dimensions(&self) -> (r: (u32, u32))
        ensures
            r == (self.width, self.height),
    {
        (self.width, self.height)
    }

    pub fn width(&self) -> (r: u32)
        ensures
            r == self.width,
    {
        self.width
    }

    pub fn height(&self) -> (r: u32)
        ensures
            r == self.height,
    {
        self.height
    }

    /// The packed RGBA bytes.
    pub fn as_raw(&self) -> (r: &[u8])
        ensures
            r@ == self.data@,
    {
        self.data.as_slice()
    }

    /// Gives up the buffer, returning its packed RGBA bytes.
    pub fn into_raw(self) -> (r: Vec<u8>)
        ensures
            r@ == self.data@,
    {
        self.data
    }

    /// A copy of this buffer.
    pub fn duplicate(&self) -> (r: PixelBuffer)
        ensures
            r@ == self@,
    {
        PixelBuffer { width: self.width, height: self.height, data: self.data.clone() }
    }
}

} // verus!
