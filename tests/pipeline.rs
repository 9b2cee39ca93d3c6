use image_pipeline::{FilterOperation, ImagePipeline, PipelineError, PixelBuffer};

fn create_test_image() -> PixelBuffer {
    let mut data = Vec::new();
    for y in 0u32..100 {
        for x in 0u32..100 {
            data.extend_from_slice(&[(x % 256) as u8, (y % 256) as u8, ((x + y) % 256) as u8, 255]);
        }
    }
    PixelBuffer::new(data, 100, 100).unwrap()
}

#[test]
fn test_pipeline_grayscale() {
    let pipeline = ImagePipeline::new();
    let image = create_test_image();
    let result = pipeline.process(&image, &[FilterOperation::Grayscale]);
    assert!(result.is_ok());
}

#[test]
fn test_pipeline_multiple_operations() {
    let pipeline = ImagePipeline::new();
    let image = create_test_image();
    let ops = vec![
        FilterOperation::Brightness(200),
        FilterOperation::Contrast(1200),
        FilterOperation::Grayscale,
    ];
    let result = pipeline.process(&image, &ops);
    assert!(result.is_ok());
}

#[test]
fn empty_pipeline_returns_input() {
    let image = create_test_image();
    let out = ImagePipeline::default().process(&image, &[]).unwrap();
    assert_eq!(out.dimensions(), image.dimensions());
    assert_eq!(out.as_raw(), image.as_raw());
}

#[test]
fn pipeline_applies_operations_in_order() {
    let image = PixelBuffer::new(vec![255, 0, 0, 255], 1, 1).unwrap();
    let p = ImagePipeline::with_threads(2);
    assert_eq!(p.thread_count, 2);
    let a = p.process(&image, &[FilterOperation::Grayscale, FilterOperation::Invert]).unwrap();
    assert_eq!(a.as_raw(), &[201, 201, 201, 255]);
    let b = p.process(&image, &[FilterOperation::Invert, FilterOperation::Grayscale]).unwrap();
    assert_eq!(b.as_raw(), &[201, 201, 201, 255]);
    let c = p.process(&image, &[FilterOperation::Sepia, FilterOperation::Grayscale]).unwrap();
    let d = p.process(&image, &[FilterOperation::Grayscale, FilterOperation::Sepia]).unwrap();
    assert_ne!(c.as_raw(), d.as_raw());
}

#[test]
fn pipeline_resize_then_filter() {
    let image = create_test_image();
    let ops = [FilterOperation::Resize { width: 10, height: 7 }, FilterOperation::Blur(1000)];
    let out = ImagePipeline::new().process(&image, &ops).unwrap();
    assert_eq!(out.dimensions(), (10, 7));
    assert_eq!(out.as_raw().len(), 10 * 7 * 4);
}

#[test]
fn pipeline_fails_fast() {
    let image = create_test_image();
    let ops = [FilterOperation::Grayscale, FilterOperation::Blur(0), FilterOperation::Invert];
    let r = ImagePipeline::new().process(&image, &ops);
    assert!(matches!(r, Err(PipelineError::InvalidParameter)));
    let ops = [FilterOperation::Resize { width: 0, height: 4 }, FilterOperation::Blur(0)];
    let r = ImagePipeline::new().process(&image, &ops);
    assert!(matches!(r, Err(PipelineError::InvalidDimensions)));
}

#[test]
fn pipeline_all_operations() {
    let image = create_test_image();
    let ops = [
        FilterOperation::Grayscale,
        FilterOperation::Brightness(-100),
        FilterOperation::Contrast(800),
        FilterOperation::Blur(500),
        FilterOperation::Sharpen,
        FilterOperation::EdgeDetect,
        FilterOperation::Invert,
        FilterOperation::Sepia,
    ];
    let out = ImagePipeline::new().process(&image, &ops).unwrap();
    assert_eq!(out.dimensions(), (100, 100));
}

#[test]
fn png_round_trip() {
    let image = create_test_image();
    let processed = ImagePipeline::new().process(&image, &[FilterOperation::Sepia]).unwrap();
    let bytes = ImagePipeline::encode_to_png(&processed).unwrap();
    assert_eq!(&bytes[..8], &[0x89, b'P', b'N', b'G', 0x0d, 0x0a, 0x1a, 0x0a]);
    let back = ImagePipeline::load_from_bytes(&bytes).unwrap();
    assert_eq!(back.dimensions(), processed.dimensions());
    assert_eq!(back.as_raw(), processed.as_raw());
}

#[test]
fn decode_rejects_garbage() {
    let r = ImagePipeline::load_from_bytes(&[1, 2, 3, 4, 5]);
    assert!(matches!(r, Err(PipelineError::UnsupportedFormat)));
}

#[test]
fn error_messages() {
    assert_eq!(PipelineError::InvalidDimensions.message(), "invalid dimensions");
    assert_eq!(PipelineError::InvalidParameter.message(), "invalid parameter");
    assert_eq!(PipelineError::UnsupportedFormat.message(), "unsupported image format");
    assert_eq!(PipelineError::IoFailure.message(), "i/o failure");
}
