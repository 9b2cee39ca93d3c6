//! Separable Gaussian blur and unsharp masking.
use crate::buffer::{chan, lemma_grid_index, lemma_pixel_coords, PixelBuffer};
use crate::error::PipelineError;
use crate::kernel::{create_gaussian_kernel, gaussian_kernel_spec, KERNEL_ONE};
use crate::tone::{clamp255, clamp255_exec};
use vstd::prelude::*;

verus! {

/// Largest kernel the convolution passes take: the kernel of the largest
/// sigma.
pub const MAX_TAPS: usize = 12_884_903;

/// `v` clamped into `[0, hi]`: out-of-range samples repeat the edge.
pub open spec fn clamp_coord(v: int, hi: int) -> int {
    if v < 0 {
        0
    } else if v > hi {
        hi
    } else {
        v
    }
}

/// Weighted sum of channel `c` along the row of pixel `p`, over the first
/// `n` taps of kernel `k` centred on `p`, the edge pixel standing in for
/// samples beyond the border.
pub open spec fn row_sum(k: Seq<u64>, s: Seq<u8>, w: int, p: int, c: int, n: int) -> int
    decreases n,
{
    if n <= 0 {
        0
    } else {
        let x = p % w;
        let sx = clamp_coord(x + (n - 1) - k.len() / 2, w - 1);
        row_sum(k, s, w, p, c, n - 1) + k[n - 1] * chan(s, p - x + sx, c)
    }
}

/// Weighted sum of channel `c` along the column of pixel `p`, as `row_sum`
/// does along its row.
pub open spec fn col_sum(k: Seq<u64>, s: Seq<u8>, w: int, h: int, p: int, c: int, n: int) -> int
    decreases n,
{
    if n <= 0 {
        0
    } else {
        let x = p % w;
        let sy = clamp_coord(p / w + (n - 1) - k.len() / 2, h - 1);
        col_sum(k, s, w, h, p, c, n - 1) + k[n - 1] * chan(s, sy * w + x, c)
    }
}

/// The horizontal pass: every channel, alpha included, convolved along rows.
pub open spec fn hpass_spec(k: Seq<u64>, s: Seq<u8>, w: int) -> Seq<u8> {
    Seq::new(
        s.len(),
        |i: int| clamp255(row_sum(k, s, w, i / 4, i % 4, k.len() as int) / KERNEL_ONE as int) as u8,
    )
}

/// The vertical pass: every channel, alpha included, convolved along columns.
pub open spec fn vpass_spec(k: Seq<u64>, s: Seq<u8>, w: int, h: int) -> Seq<u8> {
    Seq::new(
        s.len(),
        |i: int| clamp255(col_sum(k, s, w, h, i / 4, i % 4, k.len() as int) / KERNEL_ONE as int) as u8,
    )
}

/// Gaussian blur of a `w` by `h` raster with sigma in thousandths: the
/// horizontal pass, then the vertical pass over its result.
pub open spec fn blur_spec(s: Seq<u8>, w: int, h: int, sigma: int) -> Seq<u8> {
    let k = gaussian_kernel_spec(sigma);
    vpass_spec(k, hpass_spec(k, s, w), w, h)
}

/// The four channel sums of `row_sum` for pixel `p`.
fn row_taps(src: &Vec<u8>, k: &Vec<u64>, w: u32, n: usize, p: usize) -> (r: (u64, u64, u64, u64))
    requires
        0 < w,
        p < n,
        src@.len() == 4 * n,
        4 * n <= usize::MAX,
        p - (p as int) % (w as int) + w <= n,
        k@.len() <= MAX_TAPS,
        forall|i: int| 0 <= i < k@.len() ==> k@[i] <= KERNEL_ONE,
    ensures
        r.0 == row_sum(k@, src@, w as int, p as int, 0, k@.len() as int),
        r.1 == row_sum(k@, src@, w as int, p as int, 1, k@.len() as int),
        r.2 == row_sum(k@, src@, w as int, p as int, 2, k@.len() as int),
        r.3 == row_sum(k@, src@, w as int, p as int, 3, k@.len() as int),
{
    proof {
        vstd::arithmetic::div_mod::lemma_fundamental_div_mod(p as int, w as int);
        vstd::arithmetic::div_mod::lemma_mod_pos_bound(p as int, w as int);
        vstd::arithmetic::div_mod::lemma_div_pos_is_pos(p as int, w as int);
        let q = (p as int) / (w as int);
        assert(w * q >= 0) by (nonlinear_arith)
            requires
                w > 0,
                q >= 0,
        ;
    }
    let x = p % (w as usize);
    let half = k.len() / 2;
    let mut acc: (u64, u64, u64, u64) = (0, 0, 0, 0);
    let mut j: usize = 0;
    while j < k.len()
        invariant
            0 < w,
            p < n,
            src@.len() == 4 * n,
            4 * n <= usize::MAX,
            p - (p as int) % (w as int) + w <= n,
            x == (p as int) % (w as int),
            x <= p,
            x < w,
            half == k@.len() / 2,
            k@.len() <= MAX_TAPS,
            forall|i: int| 0 <= i < k@.len() ==> k@[i] <= KERNEL_ONE,
            j <= k@.len(),
            acc.0 == row_sum(k@, src@, w as int, p as int, 0, j as int),
            acc.1 == row_sum(k@, src@, w as int, p as int, 1, j as int),
            acc.2 == row_sum(k@, src@, w as int, p as int, 2, j as int),
            acc.3 == row_sum(k@, src@, w as int, p as int, 3, j as int),
            acc.0 <= j * 1095216660480,
            acc.1 <= j * 1095216660480,
            acc.2 <= j * 1095216660480,
            acc.3 <= j * 1095216660480,
        decreases k@.len() - j,
    {
        let t: i64 = x as i64 + j as i64 - half as i64;
        let sx: usize = if t < 0 {
            0
        } else if t > w as i64 - 1 {
            (w - 1) as usize
        } else {
            t as usize
        };
        let base = 4 * (p - x + sx);
        let wt = k[j];
        let (v0, v1, v2, v3) = (
            src[base] as u64,
            src[base + 1] as u64,
            src[base + 2] as u64,
            src[base + 3] as u64,
        );
        assert(wt * v0 <= 1095216660480 && wt * v1 <= 1095216660480 && wt * v2 <= 1095216660480
            && wt * v3 <= 1095216660480) by (nonlinear_arith)
            requires
                wt <= 4294967296,
                v0 <= 255,
                v1 <= 255,
                v2 <= 255,
                v3 <= 255,
        ;
        assert(j * 1095216660480 + 1095216660480 <= 12_884_903 * 1095216660480);
        acc = (acc.0 + wt * v0, acc.1 + wt * v1, acc.2 + wt * v2, acc.3 + wt * v3);
        j = j + 1;
    }
    acc
}

/// The four channel sums of `col_sum` for pixel `p`.
fn col_taps(src: &Vec<u8>, k: &Vec<u64>, w: u32, h: u32, p: usize) -> (r: (u64, u64, u64, u64))
    requires
        0 < w,
        p < w * h,
        src@.len() == 4 * (w * h),
        4 * (w * h) <= usize::MAX,
        k@.len() <= MAX_TAPS,
        forall|i: int| 0 <= i < k@.len() ==> k@[i] <= KERNEL_ONE,
    ensures
        r.0 == col_sum(k@, src@, w as int, h as int, p as int, 0, k@.len() as int),
        r.1 == col_sum(k@, src@, w as int, h as int, p as int, 1, k@.len() as int),
        r.2 == col_sum(k@, src@, w as int, h as int, p as int, 2, k@.len() as int),
        r.3 == col_sum(k@, src@, w as int, h as int, p as int, 3, k@.len() as int),
{
    proof {
        lemma_pixel_coords(p as int, w as int, h as int);
    }
    let x = p % (w as usize);
    let y = p / (w as usize);
    let half = k.len() / 2;
    let mut acc: (u64, u64, u64, u64) = (0, 0, 0, 0);
    let mut j: usize = 0;
    while j < k.len()
        invariant
            0 < w,
            0 < h,
            src@.len() == 4 * (w * h),
            4 * (w * h) <= usize::MAX,
            x == (p as int) % (w as int),
            y == (p as int) / (w as int),
            x < w,
            y < h,
            half == k@.len() / 2,
            k@.len() <= MAX_TAPS,
            forall|i: int| 0 <= i < k@.len() ==> k@[i] <= KERNEL_ONE,
            j <= k@.len(),
            acc.0 == col_sum(k@, src@, w as int, h as int, p as int, 0, j as int),
            acc.1 == col_sum(k@, src@, w as int, h as int, p as int, 1, j as int),
            acc.2 == col_sum(k@, src@, w as int, h as int, p as int, 2, j as int),
            acc.3 == col_sum(k@, src@, w as int, h as int, p as int, 3, j as int),
            acc.0 <= j * 1095216660480,
            acc.1 <= j * 1095216660480,
            acc.2 <= j * 1095216660480,
            acc.3 <= j * 1095216660480,
        decreases k@.len() - j,
    {
        let t: i64 = y as i64 + j as i64 - half as i64;
        let sy: usize = if t < 0 {
            0
        } else if t > h as i64 - 1 {
            (h - 1) as usize
        } else {
            t as usize
        };
        proof {
            lemma_grid_index(x as int, sy as int, w as int, h as int);
        }
        let base = 4 * (sy * (w as usize) + x);
        let wt = k[j];
        let (v0, v1, v2, v3) = (
            src[base] as u64,
            src[base + 1] as u64,
            src[base + 2] as u64,
            src[base + 3] as u64,
        );
        assert(wt * v0 <= 1095216660480 && wt * v1 <= 1095216660480 && wt * v2 <= 1095216660480
            && wt * v3 <= 1095216660480) by (nonlinear_arith)
            requires
                wt <= 4294967296,
                v0 <= 255,
                v1 <= 255,
                v2 <= 255,
                v3 <= 255,
        ;
        assert(j * 1095216660480 + 1095216660480 <= 12_884_903 * 1095216660480);
        acc = (acc.0 + wt * v0, acc.1 + wt * v1, acc.2 + wt * v2, acc.3 + wt * v3);
        j = j + 1;
    }
    acc
}

/// Convolves every row of the image with `kernel`, replicating edge pixels.
fn apply_convolution_1d_horizontal(image: &PixelBuffer, kernel: &Vec<u64>) -> (r: PixelBuffer)
    requires
        image.wf(),
        kernel@.len() <= MAX_TAPS,
        forall|i: int| 0 <= i < kernel@.len() ==> kernel@[i] <= KERNEL_ONE,
    ensures
        r.width == image.width,
        r.height == image.height,
        r.data@ == hpass_spec(kernel@, image.data@, image.width as int),
        r.wf(),
{
    let src = &image.data;
    let w = image.width;
    let n = src.len() / 4;
    let ghost wh = w as int * image.height as int;
    let mut out: Vec<u8> = Vec::with_capacity(src.len());
    let mut p: usize = 0;
    while p < n
        invariant
            src@.len() == 4 * n,
            n == wh,
            wh == w as int * image.height as int,
            4 * n <= usize::MAX,
            kernel@.len() <= MAX_TAPS,
            forall|i: int| 0 <= i < kernel@.len() ==> kernel@[i] <= KERNEL_ONE,
            p <= n,
            out@.len() == 4 * p,
            forall|j: int|
                0 <= j < 4 * p ==> out@[j] == hpass_spec(kernel@, src@, w as int)[j],
        decreases n - p,
    {
        assert(w > 0) by (nonlinear_arith)
            requires
                p < w as int * image.height as int,
        ;
        proof {
            lemma_pixel_coords(p as int, w as int, image.height as int);
        }
        let (a0, a1, a2, a3) = row_taps(src, kernel, w, n, p);
        out.push(clamp255_exec((a0 / KERNEL_ONE) as i64));
        out.push(clamp255_exec((a1 / KERNEL_ONE) as i64));
        out.push(clamp255_exec((a2 / KERNEL_ONE) as i64));
        out.push(clamp255_exec((a3 / KERNEL_ONE) as i64));
        p = p + 1;
    }
    assert(out@ =~= hpass_spec(kernel@, src@, w as int));
    PixelBuffer { width: w, height: image.height, data: out }
}

/// Convolves every column of the image with `kernel`, replicating edge
/// pixels.
fn apply_convolution_1d_vertical(image: &PixelBuffer, kernel: &Vec<u64>) -> (r: PixelBuffer)
    requires
        image.wf(),
        kernel@.len() <= MAX_TAPS,
        forall|i: int| 0 <= i < kernel@.len() ==> kernel@[i] <= KERNEL_ONE,
    ensures
        r.width == image.width,
        r.height == image.height,
        r.data@ == vpass_spec(kernel@, image.data@, image.width as int, image.height as int),
        r.wf(),
{
    let src = &image.data;
    let w = image.width;
    let h = image.height;
    let n = src.len() / 4;
    let mut out: Vec<u8> = Vec::with_capacity(src.len());
    let mut p: usize = 0;
    while p < n
        invariant
            src@.len() == 4 * n,
            n == w * h,
            4 * n <= usize::MAX,
            kernel@.len() <= MAX_TAPS,
            forall|i: int| 0 <= i < kernel@.len() ==> kernel@[i] <= KERNEL_ONE,
            p <= n,
            out@.len() == 4 * p,
            forall|j: int|
                0 <= j < 4 * p ==> out@[j] == vpass_spec(kernel@, src@, w as int, h as int)[j],
        decreases n - p,
    {
        assert(w > 0) by (nonlinear_arith)
            requires
                p < w as int * h as int,
        ;
        let (a0, a1, a2, a3) = col_taps(src, kernel, w, h, p);
        out.push(clamp255_exec((a0 / KERNEL_ONE) as i64));
        out.push(clamp255_exec((a1 / KERNEL_ONE) as i64));
        out.push(clamp255_exec((a2 / KERNEL_ONE) as i64));
        out.push(clamp255_exec((a3 / KERNEL_ONE) as i64));
        p = p + 1;
    }
    assert(out@ =~= vpass_spec(kernel@, src@, w as int, h as int));
    PixelBuffer { width: w, height: h, data: out }
}

/// Gaussian blur with `sigma` in thousandths: a horizontal then a vertical
/// pass of the kernel of `create_gaussian_kernel`, all four channels alike.
/// A sigma that is not positive is rejected.
pub fn blur(image: &PixelBuffer, sigma: i32) -> (r: Result<PixelBuffer, PipelineError>)
    requires
        image.wf(),
    ensures
        r.is_ok() <==> 0 < sigma,
        r matches Err(e) ==> e == PipelineError::InvalidParameter,
        r matches Ok(b) ==> b.width == image.width && b.height == image.height && b.wf()
            && b.data@ == blur_spec(
            image.data@,
            image.width as int,
            image.height as int,
            sigma as int,
        ),
{
    if sigma <= 0 {
        return Err(PipelineError::InvalidParameter);
    }
    let kernel = create_gaussian_kernel(sigma);
    let horizontal = apply_convolution_1d_horizontal(image, &kernel);
    Ok(apply_convolution_1d_vertical(&horizontal, &kernel))
}

/// One sharpened channel: `orig + 1.5 * (orig - blurred)`, rounded down and
/// clamped into `[0, 255]`.
pub open spec fn sharpen_chan(orig: int, blurred: int) -> int {
    clamp255((5 * orig - 3 * blurred) / 2)
}

pub open spec fn sharpen_byte(s: Seq<u8>, b: Seq<u8>, i: int) -> int {
    if i % 4 == 3 {
        s[i] as int
    } else {
        sharpen_chan(s[i] as int, b[i] as int)
    }
}

/// Unsharp masking of `s` against its blur with sigma 1.0.
pub open spec fn sharpen_spec(s: Seq<u8>, w: int, h: int) -> Seq<u8> {
    let b = blur_spec(s, w, h, 1000);
    Seq::new(s.len(), |i: int| sharpen_byte(s, b, i) as u8)
}

fn sharpen_chan_exec(orig: u8, blurred: u8) -> (r: u8)
    ensures
        r as int == sharpen_chan(orig as int, blurred as int),
{
    let num: i64 = 5 * (orig as i64) - 3 * (blurred as i64);
    if num < 0 {
        0
    } else {
        clamp255_exec(num / 2)
    }
}

/// Unsharp masking: each of R, G and B moves away from its Gaussian blur
/// (sigma 1.0) by 1.5 times the difference; alpha is copied.
pub fn sharpen(image: &PixelBuffer) -> (r: PixelBuffer)
    requires
        image.wf(),
    ensures
        r.width == image.width,
        r.height == image.height,
        r.data@ == sharpen_spec(image.data@, image.width as int, image.height as int),
        r.wf(),
{
    let kernel = create_gaussian_kernel(1000);
    let horizontal = apply_convolution_1d_horizontal(image, &kernel);
    let blurred = apply_convolution_1d_vertical(&horizontal, &kernel);
    let src = &image.data;
    let bl = &blurred.data;
    let ghost spec_b = blur_spec(src@, image.width as int, image.height as int, 1000);
    assert(bl@ == spec_b);
    let n = src.len() / 4;
    let mut out: Vec<u8> = Vec::with_capacity(src.len());
    let mut p: usize = 0;
    while p < n
        invariant
            src@.len() == 4 * n,
            bl@.len() == 4 * n,
            4 * n <= usize::MAX,
            bl@ == spec_b,
            spec_b == blur_spec(src@, image.width as int, image.height as int, 1000),
            p <= n,
            out@.len() == 4 * p,
            forall|j: int|
                0 <= j < 4 * p ==> out@[j] == sharpen_spec(
                    src@,
                    image.width as int,
                    image.height as int,
                )[j],
        decreases n - p,
    {
        let i = 4 * p;
        out.push(sharpen_chan_exec(src[i], bl[i]));
        out.push(sharpen_chan_exec(src[i + 1], bl[i + 1]));
        out.push(sharpen_chan_exec(src[i + 2], bl[i + 2]));
        out.push(src[i + 3]);
        p = p + 1;
    }
    assert(out@ =~= sharpen_spec(src@, image.width as int, image.height as int));
    PixelBuffer { width: image.width, height: image.height, data: out }
}

} // verus!
