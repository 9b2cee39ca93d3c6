use image_pipeline::simd::{brightness_simd, grayscale_fast, invert_simd};

#[test]
fn test_grayscale_fast() {
    let mut pixels = vec![255u8, 0, 0, 255, 0, 255, 0, 255, 0, 0, 255, 255];
    grayscale_fast(&mut pixels);

    assert_eq!(pixels[0], pixels[1]);
    assert_eq!(pixels[1], pixels[2]);
    assert_eq!(pixels[3], 255);
}

#[test]
fn test_brightness_simd() {
    let mut pixels = vec![100u8, 100, 100, 255];
    brightness_simd(&mut pixels, 50);

    assert_eq!(pixels[0], 150);
    assert_eq!(pixels[1], 150);
    assert_eq!(pixels[2], 150);
    assert_eq!(pixels[3], 255);
}

#[test]
fn test_invert_simd() {
    let mut pixels = vec![100u8, 150, 200, 255];
    invert_simd(&mut pixels);

    assert_eq!(pixels[0], 155);
    assert_eq!(pixels[1], 105);
    assert_eq!(pixels[2], 55);
    assert_eq!(pixels[3], 255);
}

#[test]
fn simd_routines_leave_partial_pixel_alone() {
    let mut pixels = vec![255u8, 0, 0, 7, 9, 9];
    grayscale_fast(&mut pixels);
    assert_eq!(pixels, vec![63, 63, 63, 7, 9, 9]);
    invert_simd(&mut pixels);
    assert_eq!(pixels, vec![192, 192, 192, 7, 9, 9]);
    brightness_simd(&mut pixels, 100);
    assert_eq!(pixels, vec![255, 255, 255, 7, 9, 9]);
    brightness_simd(&mut pixels, i16::MIN);
    assert_eq!(pixels, vec![0, 0, 0, 7, 9, 9]);
}
