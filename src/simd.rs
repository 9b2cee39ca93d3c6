//! In-place routines on packed RGBA bytes. Every complete four-byte pixel
//! is processed; trailing bytes that do not form a whole pixel are left as
//! they are, and alpha is never touched.
use vstd::prelude::*;

verus! {

/// Byte `j` of `s` belongs to a complete pixel and is a colour channel.
pub open spec fn is_colour_byte(s: Seq<u8>, j: int) -> bool {
    j < 4 * (s.len() / 4) && j % 4 != 3
}

/// The quick luma approximation `(r + 2g + b) / 4` of the pixel holding
/// byte `j`.
pub open spec fn quick_luma(s: Seq<u8>, j: int) -> int {
    let b = j - j % 4;
    (s[b] + 2 * s[b + 1] + s[b + 2]) / 4
}

pub open spec fn grayscale_fast_spec(s: Seq<u8>) -> Seq<u8> {
    Seq::new(
        s.len(),
        |j: int|
            if is_colour_byte(s, j) {
                quick_luma(s, j) as u8
            } else {
                s[j]
            },
    )
}

pub open spec fn brightness_simd_spec(s: Seq<u8>, adjustment: int) -> Seq<u8> {
    Seq::new(
        s.len(),
        |j: int|
            if is_colour_byte(s, j) {
                crate::tone::clamp255(s[j] + adjustment) as u8
            } else {
                s[j]
            },
    )
}

pub open spec fn invert_simd_spec(s: Seq<u8>) -> Seq<u8> {
    Seq::new(
        s.len(),
        |j: int|
            if is_colour_byte(s, j) {
                (255 - s[j]) as u8
            } else {
                s[j]
            },
    )
}

/// Sets R, G and B of every pixel to `(r + 2g + b) / 4`.
pub fn grayscale_fast(pixels: &mut [u8])
    ensures
        final(pixels)@ == grayscale_fast_spec(old(pixels)@),
{
    let ghost s = pixels@;
    let n = pixels.len() / 4;
    let mut p: usize = 0;
    while p < n
        invariant
            n == s.len() / 4,
            s.len() <= usize::MAX,
            p <= n,
            pixels@.len() == s.len(),
            forall|j: int| 0 <= j < 4 * p ==> pixels@[j] == grayscale_fast_spec(s)[j],
            forall|j: int| 4 * p <= j < s.len() ==> pixels@[j] == s[j],
        decreases n - p,
    {
        let i = 4 * p;
        let r = pixels[i] as u16;
        let g = pixels[i + 1] as u16;
        let b = pixels[i + 2] as u16;
        let sum: u16 = r + g + g + b;
        assert(sum >> 2u16 == sum / 4) by (bit_vector);
        let gray = (sum >> 2) as u8;
        pixels[i] = gray;
        pixels[i + 1] = gray;
        pixels[i + 2] = gray;
        p = p + 1;
    }
    assert(pixels@ =~= grayscale_fast_spec(s));
}

/// Adds `adjustment` to R, G and B of every pixel, clamping into `[0, 255]`.
pub fn brightness_simd(pixels: &mut [u8], adjustment: i16)
    ensures
        final(pixels)@ == brightness_simd_spec(old(pixels)@, adjustment as int),
{
    let ghost s = pixels@;
    let n = pixels.len() / 4;
    let mut p: usize = 0;
    while p < n
        invariant
            n == s.len() / 4,
            s.len() <= usize::MAX,
            p <= n,
            pixels@.len() == s.len(),
            forall|j: int|
                0 <= j < 4 * p ==> pixels@[j] == brightness_simd_spec(s, adjustment as int)[j],
            forall|j: int| 4 * p <= j < s.len() ==> pixels@[j] == s[j],
        decreases n - p,
    {
        let i = 4 * p;
        let adj = adjustment as i64;
        pixels[i] = crate::tone::clamp255_exec(pixels[i] as i64 + adj);
        pixels[i + 1] = crate::tone::clamp255_exec(pixels[i + 1] as i64 + adj);
        pixels[i + 2] = crate::tone::clamp255_exec(pixels[i + 2] as i64 + adj);
        p = p + 1;
    }
    assert(pixels@ =~= brightness_simd_spec(s, adjustment as int));
}

/// Replaces R, G and B of every pixel by `255 - c`.
pub fn invert_simd(pixels: &mut [u8])
    ensures
        final(pixels)@ == invert_simd_spec(old(pixels)@),
{
    let ghost s = pixels@;
    let n = pixels.len() / 4;
    let mut p: usize = 0;
    while p < n
        invariant
            n == s.len() / 4,
            s.len() <= usize::MAX,
            p <= n,
            pixels@.len() == s.len(),
            forall|j: int| 0 <= j < 4 * p ==> pixels@[j] == invert_simd_spec(s)[j],
            forall|j: int| 4 * p <= j < s.len() ==> pixels@[j] == s[j],
        decreases n - p,
    {
        let i = 4 * p;
        pixels[i] = 255 - pixels[i];
        pixels[i + 1] = 255 - pixels[i + 1];
        pixels[i + 2] = 255 - pixels[i + 2];
        p = p + 1;
    }
    assert(pixels@ =~= invert_simd_spec(s));
}

} // verus!
