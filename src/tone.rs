//! Filters that compute each output pixel from the same input pixel alone.
use crate::buffer::{chan, rgba_len, PixelBuffer};
use vstd::prelude::*;

verus! {

/// ITU-R BT.709 luma of an RGB triple, rounded to the nearest integer:
/// `round(0.2126 r + 0.7152 g + 0.0722 b)`.
pub open spec fn luma(r: int, g: int, b: int) -> int {
    (2126 * r + 7152 * g + 722 * b + 5000) / 10000
}

/// Byte `i` of the grayscale image of `s`: the luma of its pixel on R, G
/// and B; alpha unchanged.
pub open spec fn gray_byte(s: Seq<u8>, i: int) -> int {
    let p = i / 4;
    if i % 4 == 3 {
        s[i] as int
    } else {
        luma(chan(s, p, 0) as int, chan(s, p, 1) as int, chan(s, p, 2) as int)
    }
}

pub open spec fn grayscale_spec(s: Seq<u8>) -> Seq<u8> {
    Seq::new(s.len(), |i: int| gray_byte(s, i) as u8)
}

fn luma_exec(r: u8, g: u8, b: u8) -> (y: u8)
    ensures
        y as int == luma(r as int, g as int, b as int),
{
    let t: u32 = 2126 * (r as u32) + 7152 * (g as u32) + 722 * (b as u32) + 5000;
    (t / 10000) as u8
}

/// Converts to grayscale with BT.709 luma; alpha is kept.
pub fn grayscale(image: &PixelBuffer) -> (r: PixelBuffer)
    requires
        image.wf(),
    ensures
        r.width == image.width,
        r.height == image.height,
        r.data@ == grayscale_spec(image.data@),
        r.wf(),
{
    let src = &image.data;
    let n = src.len() / 4;
    let mut out: Vec<u8> = Vec::with_capacity(src.len());
    let mut p: usize = 0;
    while p < n
        invariant
            src@.len() == 4 * n,
            4 * n <= usize::MAX,
            p <= n,
            out@.len() == 4 * p,
            forall|j: int| 0 <= j < 4 * p ==> out@[j] == grayscale_spec(src@)[j],
        decreases n - p,
    {
        let i = 4 * p;
        let y = luma_exec(src[i], src[i + 1], src[i + 2]);
        out.push(y);
        out.push(y);
        out.push(y);
        out.push(src[i + 3]);
        p = p + 1;
    }
    assert(out@ =~= grayscale_spec(src@));
    PixelBuffer { width: image.width, height: image.height, data: out }
}

/// `v` clamped into `[0, 255]`.
pub open spec fn clamp255(v: int) -> int {
    if v < 0 {
        0
    } else if v > 255 {
        255
    } else {
        v
    }
}

pub(crate) fn clamp255_exec(v: i64) -> (r: u8)
    ensures
        r as int == clamp255(v as int),
{
    if v < 0 {
        0
    } else if v > 255 {
        255
    } else {
        v as u8
    }
}

/// The channel offset for a brightness amount given in thousandths:
/// `round(amount / 1000 * 255)`, halves rounded away from zero.
pub open spec fn brightness_offset(amount: int) -> int {
    if amount >= 0 {
        (amount * 255 + 500) / 1000
    } else {
        -((-amount * 255 + 500) / 1000)
    }
}

pub open spec fn brightness_byte(s: Seq<u8>, amount: int, i: int) -> int {
    if i % 4 == 3 {
        s[i] as int
    } else {
        clamp255(s[i] + brightness_offset(amount))
    }
}

pub open spec fn brightness_spec(s: Seq<u8>, amount: int) -> Seq<u8> {
    Seq::new(s.len(), |i: int| brightness_byte(s, amount, i) as u8)
}

fn brightness_offset_exec(amount: i32) -> (r: i64)
    ensures
        r as int == brightness_offset(amount as int),
        -300_000_000_000 <= r <= 300_000_000_000,
{
    let a = amount as i64;
    if a >= 0 {
        (a * 255 + 500) / 1000
    } else {
        -((-a * 255 + 500) / 1000)
    }
}

/// Adds `round(amount / 1000 * 255)` to R, G and B, clamping into
/// `[0, 255]`; alpha is kept. `amount` is in thousandths, nominally within
/// `[-1000, 1000]`.
pub fn brightness(image: &PixelBuffer, amount: i32) -> (r: PixelBuffer)
    requires
        image.wf(),
    ensures
        r.width == image.width,
        r.height == image.height,
        r.data@ == brightness_spec(image.data@, amount as int),
        r.wf(),
{
    let src = &image.data;
    let adj = brightness_offset_exec(amount);
    let n = src.len() / 4;
    let mut out: Vec<u8> = Vec::with_capacity(src.len());
    let mut p: usize = 0;
    while p < n
        invariant
            src@.len() == 4 * n,
            4 * n <= usize::MAX,
            p <= n,
            adj as int == brightness_offset(amount as int),
            -300_000_000_000 <= adj <= 300_000_000_000,
            out@.len() == 4 * p,
            forall|j: int| 0 <= j < 4 * p ==> out@[j] == brightness_spec(src@, amount as int)[j],
        decreases n - p,
    {
        let i = 4 * p;
        out.push(clamp255_exec(src[i] as i64 + adj));
        out.push(clamp255_exec(src[i + 1] as i64 + adj));
        out.push(clamp255_exec(src[i + 2] as i64 + adj));
        out.push(src[i + 3]);
        p = p + 1;
    }
    assert(out@ =~= brightness_spec(src@, amount as int));
    PixelBuffer { width: image.width, height: image.height, data: out }
}

/// `(c - 128) * factor / 1000 + 128`, rounded down and clamped into
/// `[0, 255]`.
pub open spec fn contrast_chan(c: int, factor: int) -> int {
    clamp255(((c - 128) * factor + 128_000) / 1000)
}

pub open spec fn contrast_byte(s: Seq<u8>, factor: int, i: int) -> int {
    if i % 4 == 3 {
        s[i] as int
    } else {
        contrast_chan(s[i] as int, factor)
    }
}

pub open spec fn contrast_spec(s: Seq<u8>, factor: int) -> Seq<u8> {
    Seq::new(s.len(), |i: int| contrast_byte(s, factor, i) as u8)
}

fn contrast_chan_exec(c: u8, factor: i32) -> (r: u8)
    ensures
        r as int == contrast_chan(c as int, factor as int),
{
    let d: i64 = c as i64 - 128;
    assert(-128 * 0x8000_0000 <= d * factor <= 128 * 0x8000_0000) by (nonlinear_arith)
        requires
            -128 <= d <= 127,
            -0x8000_0000 <= factor <= 0x7fff_ffff,
    ;
    let num: i64 = d * (factor as i64) + 128_000;
    if num < 0 {
        0
    } else {
        clamp255_exec(num / 1000)
    }
}

/// Scales the distance of R, G and B from 128 by `factor / 1000`, rounding
/// down and clamping into `[0, 255]`; alpha is kept. A factor of `1000`
/// changes nothing, `0` gives mid-gray.
pub fn contrast(image: &PixelBuffer, factor: i32) -> (r: PixelBuffer)
    requires
        image.wf(),
    ensures
        r.width == image.width,
        r.height == image.height,
        r.data@ == contrast_spec(image.data@, factor as int),
        r.wf(),
{
    let src = &image.data;
    let n = src.len() / 4;
    let mut out: Vec<u8> = Vec::with_capacity(src.len());
    let mut p: usize = 0;
    while p < n
        invariant
            src@.len() == 4 * n,
            4 * n <= usize::MAX,
            p <= n,
            out@.len() == 4 * p,
            forall|j: int| 0 <= j < 4 * p ==> out@[j] == contrast_spec(src@, factor as int)[j],
        decreases n - p,
    {
        let i = 4 * p;
        out.push(contrast_chan_exec(src[i], factor));
        out.push(contrast_chan_exec(src[i + 1], factor));
        out.push(contrast_chan_exec(src[i + 2], factor));
        out.push(src[i + 3]);
        p = p + 1;
    }
    assert(out@ =~= contrast_spec(src@, factor as int));
    PixelBuffer { width: image.width, height: image.height, data: out }
}

pub open spec fn invert_byte(s: Seq<u8>, i: int) -> int {
    if i % 4 == 3 {
        s[i] as int
    } else {
        255 - s[i]
    }
}

pub open spec fn invert_spec(s: Seq<u8>) -> Seq<u8> {
    Seq::new(s.len(), |i: int| invert_byte(s, i) as u8)
}

/// Replaces R, G and B by `255 - c`; alpha is kept.
pub fn invert(image: &PixelBuffer) -> (r: PixelBuffer)
    requires
        image.wf(),
    ensures
        r.width == image.width,
        r.height == image.height,
        r.data@ == invert_spec(image.data@),
        r.wf(),
{
    let src = &image.data;
    let n = src.len() / 4;
    let mut out: Vec<u8> = Vec::with_capacity(src.len());
    let mut p: usize = 0;
    while p < n
        invariant
            src@.len() == 4 * n,
            4 * n <= usize::MAX,
            p <= n,
            out@.len() == 4 * p,
            forall|j: int| 0 <= j < 4 * p ==> out@[j] == invert_spec(src@)[j],
        decreases n - p,
    {
        let i = 4 * p;
        out.push(255 - src[i]);
        out.push(255 - src[i + 1]);
        out.push(255 - src[i + 2]);
        out.push(src[i + 3]);
        p = p + 1;
    }
    assert(out@ =~= invert_spec(src@));
    PixelBuffer { width: image.width, height: image.height, data: out }
}

/// One sepia output channel: `(kr r + kg g + kb b) / 1000`, rounded down and
/// capped at 255.
pub open spec fn sepia_mix(kr: int, kg: int, kb: int, r: int, g: int, b: int) -> int {
    clamp255((kr * r + kg * g + kb * b) / 1000)
}

pub open spec fn sepia_byte(s: Seq<u8>, i: int) -> int {
    let p = i / 4;
    let r = chan(s, p, 0) as int;
    let g = chan(s, p, 1) as int;
    let b = chan(s, p, 2) as int;
    if i % 4 == 0 {
        sepia_mix(393, 769, 189, r, g, b)
    } else if i % 4 == 1 {
        sepia_mix(349, 686, 168, r, g, b)
    } else if i % 4 == 2 {
        sepia_mix(272, 534, 131, r, g, b)
    } else {
        s[i] as int
    }
}

pub open spec fn sepia_spec(s: Seq<u8>) -> Seq<u8> {
    Seq::new(s.len(), |i: int| sepia_byte(s, i) as u8)
}

fn sepia_mix_exec(kr: u32, kg: u32, kb: u32, r: u8, g: u8, b: u8) -> (v: u8)
    requires
        kr <= 1000,
        kg <= 1000,
        kb <= 1000,
    ensures
        v as int == sepia_mix(kr as int, kg as int, kb as int, r as int, g as int, b as int),
{
    assert(kr * r + kg * g + kb * b <= 3 * 1000 * 255) by (nonlinear_arith)
        requires
            kr <= 1000,
            kg <= 1000,
            kb <= 1000,
            r <= 255,
            g <= 255,
            b <= 255,
    ;
    let t: u32 = kr * (r as u32) + kg * (g as u32) + kb * (b as u32);
    clamp255_exec((t / 1000) as i64)
}

/// Applies the classic sepia colour matrix to R, G and B, rounding down and
/// capping at 255; alpha is kept.
pub fn sepia(image: &PixelBuffer) -> (r: PixelBuffer)
    requires
        image.wf(),
    ensures
        r.width == image.width,
        r.height == image.height,
        r.data@ == sepia_spec(image.data@),
        r.wf(),
{
    let src = &image.data;
    let n = src.len() / 4;
    let mut out: Vec<u8> = Vec::with_capacity(src.len());
    let mut p: usize = 0;
    while p < n
        invariant
            src@.len() == 4 * n,
            4 * n <= usize::MAX,
            p <= n,
            out@.len() == 4 * p,
            forall|j: int| 0 <= j < 4 * p ==> out@[j] == sepia_spec(src@)[j],
        decreases n - p,
    {
        let i = 4 * p;
        let (r, g, b) = (src[i], src[i + 1], src[i + 2]);
        out.push(sepia_mix_exec(393, 769, 189, r, g, b));
        out.push(sepia_mix_exec(349, 686, 168, r, g, b));
        out.push(sepia_mix_exec(272, 534, 131, r, g, b));
        out.push(src[i + 3]);
        p = p + 1;
    }
    assert(out@ =~= sepia_spec(src@));
    PixelBuffer { width: image.width, height: image.height, data: out }
}

/// Inverting twice restores every byte exactly, alpha included.
pub proof fn lemma_invert_involution(s: Seq<u8>)
    ensures
        invert_spec(invert_spec(s)) == s,
{
    assert(invert_spec(invert_spec(s)) =~= s);
}

/// Every pixel of a grayscale image has equal R, G and B, and keeps the
/// alpha of the source pixel.
pub proof fn lemma_grayscale_achromatic(s: Seq<u8>)
    requires
        s.len() % 4 == 0,
    ensures
        forall|p: int|
            0 <= p < s.len() / 4 ==> {
                &&& #[trigger] chan(grayscale_spec(s), p, 0) == chan(grayscale_spec(s), p, 1)
                &&& chan(grayscale_spec(s), p, 1) == chan(grayscale_spec(s), p, 2)
                &&& chan(grayscale_spec(s), p, 3) == chan(s, p, 3)
            },
{
    assert forall|p: int| 0 <= p < s.len() / 4 implies {
        &&& #[trigger] chan(grayscale_spec(s), p, 0) == chan(grayscale_spec(s), p, 1)
        &&& chan(grayscale_spec(s), p, 1) == chan(grayscale_spec(s), p, 2)
        &&& chan(grayscale_spec(s), p, 3) == chan(s, p, 3)
    } by {
        assert((4 * p) / 4 == p && (4 * p + 1) / 4 == p && (4 * p + 2) / 4 == p);
        assert((4 * p + 1) % 4 == 1 && (4 * p + 2) % 4 == 2 && (4 * p + 3) % 4 == 3);
    }
}

/// A brightness amount of zero changes no byte.
pub proof fn lemma_brightness_zero_is_identity(s: Seq<u8>)
    ensures
        brightness_spec(s, 0) == s,
{
    assert(brightness_offset(0) == 0);
    assert(brightness_spec(s, 0) =~= s);
}

/// A contrast factor of `1000` (that is, 1.0) changes no byte.
pub proof fn lemma_contrast_unit_is_identity(s: Seq<u8>)
    ensures
        contrast_spec(s, 1000) == s,
{
    assert forall|c: int| 0 <= c <= 255 implies contrast_chan(c, 1000) == c by {
        assert((c - 128) * 1000 + 128_000 == c * 1000);
    }
    assert(contrast_spec(s, 1000) =~= s);
}

} // verus!
