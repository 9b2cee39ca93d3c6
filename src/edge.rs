//! Sobel edge detection.
use crate::buffer::{chan, lemma_pixel_coords, PixelBuffer};
use crate::tone::{grayscale, grayscale_spec};
use vstd::prelude::*;

verus! {

/// `r` is `floor(sqrt(n))`, capped at 255.
pub open spec fn is_capped_sqrt(r: int, n: int) -> bool {
    0 <= r <= 255 && r * r <= n && (r == 255 || n < (r + 1) * (r + 1))
}

/// `floor(sqrt(n))`, capped at 255, for `n >= 0`.
pub open spec fn capped_sqrt(n: int) -> int {
    choose|r: int| is_capped_sqrt(r, n)
}

proof fn lemma_capped_sqrt_unique(a: int, b: int, n: int)
    requires
        is_capped_sqrt(a, n),
        is_capped_sqrt(b, n),
    ensures
        a == b,
{
    if a < b {
        assert((a + 1) * (a + 1) <= b * b) by (nonlinear_arith)
            requires
                0 <= a < b,
        ;
    } else if b < a {
        assert((b + 1) * (b + 1) <= a * a) by (nonlinear_arith)
            requires
                0 <= b < a,
        ;
    }
}

/// Luma stored at pixel `q` of a grayscale raster (its R byte).
pub open spec fn lum(g: Seq<u8>, q: int) -> int {
    chan(g, q, 0) as int
}

/// Horizontal Sobel response `[[-1,0,1],[-2,0,2],[-1,0,1]]` at pixel `p` of
/// a grayscale raster of width `w`.
pub open spec fn sobel_x(g: Seq<u8>, w: int, p: int) -> int {
    lum(g, p - w + 1) + 2 * lum(g, p + 1) + lum(g, p + w + 1) - lum(g, p - w - 1) - 2 * lum(
        g,
        p - 1,
    ) - lum(g, p + w - 1)
}

/// Vertical Sobel response `[[-1,-2,-1],[0,0,0],[1,2,1]]` at pixel `p`.
pub open spec fn sobel_y(g: Seq<u8>, w: int, p: int) -> int {
    lum(g, p + w - 1) + 2 * lum(g, p + w) + lum(g, p + w + 1) - lum(g, p - w - 1) - 2 * lum(
        g,
        p - w,
    ) - lum(g, p - w + 1)
}

/// Pixel `p` is off the one-pixel border of a `w` by `h` raster.
pub open spec fn is_interior(w: int, h: int, p: int) -> bool {
    let x = p % w;
    let y = p / w;
    1 <= x && x + 2 <= w && 1 <= y && y + 2 <= h
}

/// Byte `i` of the edge image computed from grayscale raster `g`: on
/// interior pixels the gradient magnitude in R, G and B and 255 in alpha;
/// the border stays `(0, 0, 0, 0)`.
pub open spec fn edge_byte(g: Seq<u8>, w: int, h: int, i: int) -> int {
    let p = i / 4;
    if !is_interior(w, h, p) {
        0
    } else if i % 4 == 3 {
        255
    } else {
        let gx = sobel_x(g, w, p);
        let gy = sobel_y(g, w, p);
        capped_sqrt(gx * gx + gy * gy)
    }
}

pub open spec fn edge_spec(s: Seq<u8>, w: int, h: int) -> Seq<u8> {
    let g = grayscale_spec(s);
    Seq::new(s.len(), |i: int| edge_byte(g, w, h, i) as u8)
}

fn capped_sqrt_exec(n: u64) -> (r: u8)
    ensures
        r as int == capped_sqrt(n as int),
{
    let mut m: u64 = 255;
    while m > 0 && m * m > n
        invariant
            m <= 255,
            m * m <= 255 * 255,
            m == 255 || (m + 1) * (m + 1) > n,
        decreases m,
    {
        m = m - 1;
        assert(m * m <= 255 * 255) by (nonlinear_arith)
            requires
                m < 255,
        ;
    }
    proof {
        assert(is_capped_sqrt(m as int, n as int));
        lemma_capped_sqrt_unique(m as int, capped_sqrt(n as int), n as int);
    }
    m as u8
}

/// Sobel gradient magnitude at interior pixel `p` of grayscale bytes `g`.
fn gradient_at(g: &Vec<u8>, w: usize, n: usize, p: usize) -> (r: u8)
    requires
        g@.len() == 4 * n,
        4 * n <= usize::MAX,
        w + 1 <= p,
        p + w + 1 < n,
    ensures
        r as int == capped_sqrt(
            sobel_x(g@, w as int, p as int) * sobel_x(g@, w as int, p as int) + sobel_y(
                g@,
                w as int,
                p as int,
            ) * sobel_y(g@, w as int, p as int),
        ),
{
    let tl = g[4 * (p - w - 1)] as i64;
    let tm = g[4 * (p - w)] as i64;
    let tr = g[4 * (p - w + 1)] as i64;
    let ml = g[4 * (p - 1)] as i64;
    let mr = g[4 * (p + 1)] as i64;
    let bl = g[4 * (p + w - 1)] as i64;
    let bm = g[4 * (p + w)] as i64;
    let br = g[4 * (p + w + 1)] as i64;
    let gx = tr + 2 * mr + br - tl - 2 * ml - bl;
    let gy = bl + 2 * bm + br - tl - 2 * tm - tr;
    assert(0 <= gx * gx <= 1020 * 1020 && 0 <= gy * gy <= 1020 * 1020) by (nonlinear_arith)
        requires
            -1020 <= gx <= 1020,
            -1020 <= gy <= 1020,
    ;
    capped_sqrt_exec((gx * gx + gy * gy) as u64)
}

/// Sobel edge detection on the luma of the image. Interior pixels get the
/// gradient magnitude, `floor(sqrt(gx^2 + gy^2))` capped at 255, in R, G and
/// B and an opaque alpha. By design the one-pixel border is not convolved:
/// it stays transparent black `(0, 0, 0, 0)`, as does every pixel of an image
/// narrower or shorter than three pixels.
pub fn edge_detect(image: &PixelBuffer) -> (r: PixelBuffer)
    requires
        image.wf(),
    ensures
        r.width == image.width,
        r.height == image.height,
        r.data@ == edge_spec(image.data@, image.width as int, image.height as int),
        r.wf(),
{
    let gray = grayscale(image);
    let g = &gray.data;
    let w = image.width as usize;
    let h = image.height as usize;
    let n = g.len() / 4;
    let ghost gs = grayscale_spec(image.data@);
    let mut out: Vec<u8> = Vec::with_capacity(g.len());
    let mut p: usize = 0;
    while p < n
        invariant
            g@ == gs,
            g@.len() == 4 * n,
            4 * n <= usize::MAX,
            n == w * h,
            w == image.width,
            h == image.height,
            p <= n,
            out@.len() == 4 * p,
            forall|j: int|
                0 <= j < 4 * p ==> out@[j] == Seq::new(
                    gs.len(),
                    |i: int| edge_byte(gs, w as int, h as int, i) as u8,
                )[j],
        decreases n - p,
    {
        assert(w > 0) by (nonlinear_arith)
            requires
                p < w * h,
        ;
        proof {
            lemma_pixel_coords(p as int, w as int, h as int);
        }
        let x = p % w;
        let y = p / w;
        if 1 <= x && x + 2 <= w && 1 <= y && y + 2 <= h {
            assert(w + 1 <= p && p + w + 1 < n) by (nonlinear_arith)
                requires
                    p == y * w + x,
                    1 <= x,
                    x + 2 <= w,
                    1 <= y,
                    y + 2 <= h,
                    n == w * h,
            ;
            let m = gradient_at(g, w, n, p);
            out.push(m);
            out.push(m);
            out.push(m);
            out.push(255);
        } else {
            out.push(0);
            out.push(0);
            out.push(0);
            out.push(0);
        }
        p = p + 1;
    }
    assert(out@ =~= edge_spec(image.data@, image.width as int, image.height as int));
    PixelBuffer { width: image.width, height: image.height, data: out }
}

} // verus!
