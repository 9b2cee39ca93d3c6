use image_pipeline::{
    blur, brightness, contrast, create_gaussian_kernel, edge_detect, grayscale, invert, resize,
    sepia, sharpen, PipelineError, PixelBuffer,
};

fn create_test_image() -> PixelBuffer {
    let mut data = Vec::new();
    for y in 0u32..100 {
        for x in 0u32..100 {
            data.extend_from_slice(&[(x % 256) as u8, (y % 256) as u8, ((x + y) % 256) as u8, 255]);
        }
    }
    PixelBuffer::new(data, 100, 100).unwrap()
}

fn solid(width: u32, height: u32, px: [u8; 4]) -> PixelBuffer {
    let mut data = Vec::new();
    for _ in 0..width * height {
        data.extend_from_slice(&px);
    }
    PixelBuffer::new(data, width, height).unwrap()
}

#[test]
fn test_grayscale() {
    let image = create_test_image();
    let result = grayscale(&image);
    assert_eq!(result.dimensions(), image.dimensions());

    for pixel in result.as_raw().chunks(4) {
        assert_eq!(pixel[0], pixel[1]);
        assert_eq!(pixel[1], pixel[2]);
    }
}

#[test]
fn test_brightness() {
    let image = create_test_image();
    let brighter = brightness(&image, 500);
    let darker = brightness(&image, -500);

    assert_eq!(brighter.dimensions(), image.dimensions());
    assert_eq!(darker.dimensions(), image.dimensions());
}

#[test]
fn test_contrast() {
    let image = create_test_image();
    let result = contrast(&image, 1500);
    assert_eq!(result.dimensions(), image.dimensions());
}

#[test]
fn test_blur() {
    let image = create_test_image();
    let result = blur(&image, 2000).unwrap();
    assert_eq!(result.dimensions(), image.dimensions());
}

#[test]
fn test_edge_detect() {
    let image = create_test_image();
    let result = edge_detect(&image);
    assert_eq!(result.dimensions(), image.dimensions());
}

#[test]
fn test_resize() {
    let image = create_test_image();
    let result = resize(&image, 50, 50).unwrap();
    assert_eq!(result.dimensions(), (50, 50));
}

#[test]
fn test_invert() {
    let image = create_test_image();
    let result = invert(&image);

    let double_invert = invert(&result);
    assert_eq!(image.as_raw(), double_invert.as_raw());
}

#[test]
fn test_sepia() {
    let image = create_test_image();
    let result = sepia(&image);
    assert_eq!(result.dimensions(), image.dimensions());
}

#[test]
fn grayscale_of_primaries_uses_rounded_luma() {
    let data = vec![255, 0, 0, 255, 0, 255, 0, 255, 0, 0, 255, 255, 255, 255, 255, 255];
    let image = PixelBuffer::new(data, 2, 2).unwrap();
    let g = grayscale(&image);
    assert_eq!(g.as_raw(), &[54, 54, 54, 255, 182, 182, 182, 255, 18, 18, 18, 255, 255, 255, 255, 255]);
}

#[test]
fn grayscale_keeps_alpha_and_is_achromatic() {
    let data = vec![10, 200, 30, 7, 250, 1, 99, 128];
    let image = PixelBuffer::new(data, 2, 1).unwrap();
    let g = grayscale(&image);
    let raw = g.as_raw();
    assert_eq!(raw[3], 7);
    assert_eq!(raw[7], 128);
    assert_eq!(raw[0], raw[1]);
    assert_eq!(raw[1], raw[2]);
    assert_eq!(raw[4], raw[5]);
    assert_eq!(raw[5], raw[6]);
}

#[test]
fn sepia_of_white_pixel() {
    let image = solid(1, 1, [255, 255, 255, 255]);
    let s = sepia(&image);
    // R and G weights sum above 1 and clamp; the B weights sum to 0.937.
    assert_eq!(s.as_raw(), &[255, 255, 238, 255]);
}

#[test]
fn new_rejects_mismatched_length() {
    let r = PixelBuffer::new(vec![0u8; 15], 2, 2);
    assert!(matches!(r, Err(PipelineError::InvalidDimensions)));
    let r = PixelBuffer::new(vec![0u8; 4], 0, 5);
    assert!(matches!(r, Err(PipelineError::InvalidDimensions)));
    assert!(PixelBuffer::new(Vec::new(), 0, 5).is_ok());
}

#[test]
fn brightness_exact_values() {
    let image = solid(1, 1, [100, 0, 250, 9]);
    assert_eq!(brightness(&image, 500).as_raw(), &[228, 128, 255, 9]);
    assert_eq!(brightness(&image, -500).as_raw(), &[0, 0, 122, 9]);
    assert_eq!(brightness(&image, 200).as_raw(), &[151, 51, 255, 9]);
}

#[test]
fn brightness_zero_is_identity() {
    let image = create_test_image();
    assert_eq!(brightness(&image, 0).as_raw(), image.as_raw());
}

#[test]
fn contrast_exact_values() {
    let image = solid(1, 1, [0, 200, 128, 77]);
    assert_eq!(contrast(&image, 1500).as_raw(), &[0, 236, 128, 77]);
    assert_eq!(contrast(&image, 0).as_raw(), &[128, 128, 128, 77]);
}

#[test]
fn contrast_unit_is_identity() {
    let image = create_test_image();
    assert_eq!(contrast(&image, 1000).as_raw(), image.as_raw());
}

#[test]
fn invert_exact_values() {
    let image = solid(1, 1, [100, 150, 200, 42]);
    assert_eq!(invert(&image).as_raw(), &[155, 105, 55, 42]);
}

#[test]
fn kernel_is_normalised_and_symmetric() {
    let k = create_gaussian_kernel(1000);
    assert_eq!(k.len(), 7);
    assert_eq!(k.iter().sum::<u64>(), 1u64 << 32);
    for i in 0..7 {
        assert_eq!(k[i], k[6 - i]);
        assert!(k[i] <= k[3]);
    }
    let k = create_gaussian_kernel(2500);
    assert_eq!(k.len(), 2 * 8 + 1);
    assert_eq!(k.iter().sum::<u64>(), 1u64 << 32);
}

#[test]
fn kernel_weights_are_all_positive() {
    for sigma in [1, 100, 200, 290, 439, 1000, 5000] {
        let k = create_gaussian_kernel(sigma);
        assert_eq!(k.iter().sum::<u64>(), 1u64 << 32);
        assert!(k.iter().all(|&w| w >= 1));
        assert_eq!(k[0], k[k.len() - 1]);
    }
    let k = create_gaussian_kernel(100);
    assert_eq!(k.len(), 3);
    assert!(k[0] >= 1 && k[1] > k[0]);
}

#[test]
fn blur_keeps_constant_image_and_dimensions() {
    let image = solid(5, 3, [40, 80, 120, 200]);
    let b = blur(&image, 1500).unwrap();
    assert_eq!(b.dimensions(), (5, 3));
    assert_eq!(b.as_raw(), image.as_raw());
}

#[test]
fn blur_spreads_a_single_bright_pixel() {
    let mut data = vec![0u8; 5 * 5 * 4];
    let centre = (2 * 5 + 2) * 4;
    data[centre..centre + 4].copy_from_slice(&[255, 255, 255, 255]);
    let image = PixelBuffer::new(data, 5, 5).unwrap();
    let b = blur(&image, 1000).unwrap();
    let raw = b.as_raw();
    assert!(raw[centre] < 255);
    assert!(raw[centre] > raw[centre - 4]);
    assert!(raw[centre - 4] > 0);
    assert_eq!(raw[centre - 4], raw[centre + 4]);
}

#[test]
fn blur_rejects_non_positive_sigma() {
    let image = solid(2, 2, [1, 2, 3, 4]);
    assert!(matches!(blur(&image, 0), Err(PipelineError::InvalidParameter)));
    assert!(matches!(blur(&image, -1000), Err(PipelineError::InvalidParameter)));
}

#[test]
fn sharpen_keeps_constant_image() {
    let image = solid(4, 4, [90, 60, 30, 10]);
    assert_eq!(sharpen(&image).as_raw(), image.as_raw());
}

#[test]
fn sharpen_amplifies_a_step() {
    let mut data = Vec::new();
    for _y in 0..3 {
        data.extend_from_slice(&[100, 100, 100, 255, 100, 100, 100, 255, 200, 200, 200, 255]);
    }
    let image = PixelBuffer::new(data, 3, 3).unwrap();
    let s = sharpen(&image);
    let raw = s.as_raw();
    assert!(raw[4] < 100);
    assert!(raw[8] == 255 || raw[8] > 200);
    assert_eq!(raw[7], 255);
}

#[test]
fn edge_detect_on_a_step_and_border() {
    // Columns: 0, 10, 10 in a 3x3 image: the centre sees gx = 40, gy = 0.
    let mut data = Vec::new();
    for _y in 0..3 {
        data.extend_from_slice(&[0, 0, 0, 255, 10, 10, 10, 255, 10, 10, 10, 255]);
    }
    let image = PixelBuffer::new(data, 3, 3).unwrap();
    let e = edge_detect(&image);
    let raw = e.as_raw();
    assert_eq!(&raw[16..20], &[40, 40, 40, 255]);
    for p in 0..9 {
        if p != 4 {
            assert_eq!(&raw[4 * p..4 * p + 4], &[0, 0, 0, 0]);
        }
    }
}

#[test]
fn edge_detect_caps_magnitude() {
    let mut data = Vec::new();
    for _y in 0..3 {
        data.extend_from_slice(&[0, 0, 0, 255, 255, 255, 255, 255, 255, 255, 255, 255]);
    }
    let image = PixelBuffer::new(data, 3, 3).unwrap();
    let e = edge_detect(&image);
    assert_eq!(&e.as_raw()[16..20], &[255, 255, 255, 255]);
}

#[test]
fn edge_detect_small_image_is_all_border() {
    let image = solid(2, 2, [255, 255, 255, 255]);
    assert_eq!(edge_detect(&image).as_raw(), &[0u8; 16][..]);
}

#[test]
fn resize_changes_dimensions() {
    let image = solid(4, 4, [10, 20, 30, 255]);
    let r = resize(&image, 2, 3).unwrap();
    assert_eq!(r.dimensions(), (2, 3));
    assert_eq!(r.as_raw().len(), 2 * 3 * 4);
    for px in r.as_raw().chunks(4) {
        assert_eq!(px, &[10, 20, 30, 255]);
    }
    let r = resize(&image, 8, 1).unwrap();
    assert_eq!(r.as_raw().len(), 8 * 4);
    for px in r.as_raw().chunks(4) {
        assert_eq!(px, &[10, 20, 30, 255]);
    }
}

#[test]
fn resize_to_same_size_copies() {
    let image = create_test_image();
    let r = resize(&image, 100, 100).unwrap();
    assert_eq!(r.as_raw(), image.as_raw());
}

#[test]
fn resize_of_empty_image_is_transparent_black() {
    let image = PixelBuffer::new(Vec::new(), 0, 3).unwrap();
    let r = resize(&image, 2, 2).unwrap();
    assert_eq!(r.as_raw(), &[0u8; 16][..]);
}

#[test]
fn resize_rejects_zero_dimensions() {
    let image = solid(4, 4, [10, 20, 30, 255]);
    assert!(matches!(resize(&image, 0, 3), Err(PipelineError::InvalidDimensions)));
    assert!(matches!(resize(&image, 3, 0), Err(PipelineError::InvalidDimensions)));
}

#[test]
fn blur_with_wide_kernel_on_small_image() {
    let image = solid(3, 2, [7, 70, 170, 255]);
    let b = blur(&image, 50_000).unwrap();
    assert_eq!(b.dimensions(), (3, 2));
    assert_eq!(b.as_raw(), image.as_raw());
    let k = create_gaussian_kernel(50_000);
    assert_eq!(k.len(), 301);
    assert_eq!(k.iter().sum::<u64>(), 1u64 << 32);
}
