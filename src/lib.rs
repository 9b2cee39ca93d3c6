//! A verified RGBA filter engine: per-pixel tonal filters, separable Gaussian
//! blur, unsharp masking, Sobel edges, resampling, and ordered pipelines of
//! those operations.
//!
//! Filter parameters that are real numbers in the usual formulation
//! (brightness amount, contrast factor, blur sigma) are given in thousandths:
//! a brightness of `0.2` is written `200`, a sigma of `1.0` is `1000`.

pub mod blur;
pub mod buffer;
pub mod codec;
pub mod edge;
pub mod error;
pub mod handle;
pub mod kernel;
pub mod pipeline;
pub mod resample;
pub mod simd;
pub mod tone;

pub use buffer::PixelBuffer;
pub use error::PipelineError;
pub use handle::ImageHandle;
pub use blur::{blur, sharpen};
pub use edge::edge_detect;
pub use kernel::create_gaussian_kernel;
pub use pipeline::{FilterOperation, ImagePipeline};
pub use resample::resize;
pub use tone::{brightness, contrast, grayscale, invert, sepia};
