//! Ordered pipelines of filter operations.
use crate::blur::{blur, blur_spec, sharpen, sharpen_spec};
use crate::buffer::{rgba_len, PixelBuffer};
use crate::codec::{decode, encode, encode_result};
use crate::edge::{edge_detect, edge_spec};
use crate::error::PipelineError;
use crate::resample::{resampled, resize};
use crate::tone::{
    brightness,
    brightness_spec,
    contrast,
    contrast_spec,
    grayscale,
    grayscale_spec,
    invert,
    invert_spec,
    sepia,
    sepia_spec,
};
use vstd::prelude::*;

verus! {

/// One step of a pipeline. Real-valued parameters are in thousandths.
#[derive(Debug, Clone, Copy, PartialEq, Eq, Structural)]
pub enum FilterOperation {
    /// Convert to grayscale.
    Grayscale,
    /// Adjust brightness by an amount nominally within `[-1000, 1000]`.
    Brightness(i32),
    /// Scale contrast by a factor, nominally `0` upwards; `1000` is neutral.
    Contrast(i32),
    /// Gaussian blur with the given sigma, which must be positive.
    Blur(i32),
    /// Unsharp masking.
    Sharpen,
    /// Sobel edge detection.
    EdgeDetect,
    /// Resample to the given dimensions, which must be positive.
    Resize { width: u32, height: u32 },
    /// Invert colours.
    Invert,
    /// Sepia tone.
    Sepia,
}

/// The width and height `op` gives a `w` by `h` raster, or the error it
/// fails with.
pub open spec fn op_dims(op: FilterOperation, w: u32, h: u32) -> Result<(u32, u32), PipelineError> {
    match op {
        FilterOperation::Blur(sigma) => if 0 < sigma {
            Ok((w, h))
        } else {
            Err(PipelineError::InvalidParameter)
        },
        FilterOperation::Resize { width, height } => if 0 < width && 0 < height && rgba_len(
            width as int,
            height as int,
        ) <= usize::MAX {
            Ok((width, height))
        } else {
            Err(PipelineError::InvalidDimensions)
        },
        _ => Ok((w, h)),
    }
}

/// `out` is what `op` makes of the raster `v` (width, height, bytes) when it
/// succeeds: exactly the filter's bytes, and for a resize what resampling is
/// known to give.
pub open spec fn op_bytes(op: FilterOperation, v: (u32, u32, Seq<u8>), out: Seq<u8>) -> bool {
    let (w, h, s) = v;
    match op {
        FilterOperation::Grayscale => out == grayscale_spec(s),
        FilterOperation::Brightness(a) => out == brightness_spec(s, a as int),
        FilterOperation::Contrast(f) => out == contrast_spec(s, f as int),
        FilterOperation::Blur(sigma) => out == blur_spec(s, w as int, h as int, sigma as int),
        FilterOperation::Sharpen => out == sharpen_spec(s, w as int, h as int),
        FilterOperation::EdgeDetect => out == edge_spec(s, w as int, h as int),
        FilterOperation::Resize { width, height } => resampled(w, h, s, width, height, out),
        FilterOperation::Invert => out == invert_spec(s),
        FilterOperation::Sepia => out == sepia_spec(s),
    }
}

/// `r` is a possible outcome of applying `op` to the raster `v`.
pub open spec fn op_step(
    op: FilterOperation,
    v: (u32, u32, Seq<u8>),
    r: Result<(u32, u32, Seq<u8>), PipelineError>,
) -> bool {
    match op_dims(op, v.0, v.1) {
        Err(e) => r == Err::<(u32, u32, Seq<u8>), PipelineError>(e),
        Ok(d) => r matches Ok(u) && u.0 == d.0 && u.1 == d.1 && op_bytes(op, v, u.2),
    }
}

/// `r` is a possible outcome of applying the first `n` operations of `ops`
/// in order to `v`, stopping at the first error.
pub open spec fn runs_to(
    ops: Seq<FilterOperation>,
    n: int,
    v: (u32, u32, Seq<u8>),
    r: Result<(u32, u32, Seq<u8>), PipelineError>,
) -> bool
    decreases n,
{
    if n <= 0 {
        r == Ok::<_, PipelineError>(v)
    } else {
        ||| (exists|u: (u32, u32, Seq<u8>)|
            runs_to(ops, n - 1, v, Ok(u)) && #[trigger] op_step(ops[n - 1], u, r))
        ||| (r is Err && runs_to(ops, n - 1, v, r))
    }
}

/// The width and height after the first `n` operations of `ops` on a `w` by
/// `h` raster, or the first error.
pub open spec fn dims_after(ops: Seq<FilterOperation>, n: int, w: u32, h: u32) -> Result<
    (u32, u32),
    PipelineError,
>
    decreases n,
{
    if n <= 0 {
        Ok((w, h))
    } else {
        match dims_after(ops, n - 1, w, h) {
            Ok(d) => op_dims(ops[n - 1], d.0, d.1),
            Err(e) => Err(e),
        }
    }
}

/// A run of `n - 1` operations reaching `u`, followed by a step of the
/// `n`-th operation from `u`, is a run of `n` operations.
pub proof fn lemma_run_step(
    ops: Seq<FilterOperation>,
    n: int,
    v: (u32, u32, Seq<u8>),
    u: (u32, u32, Seq<u8>),
    r: Result<(u32, u32, Seq<u8>), PipelineError>,
)
    requires
        0 < n <= ops.len(),
        runs_to(ops, n - 1, v, Ok(u)),
        op_step(ops[n - 1], u, r),
    ensures
        runs_to(ops, n, v, r),
{
    assert(op_step(ops[n - 1], u, r));
}

/// Once a prefix of the pipeline has failed, every longer prefix fails with
/// the same error.
pub proof fn lemma_run_error_persists(
    ops: Seq<FilterOperation>,
    i: int,
    n: int,
    v: (u32, u32, Seq<u8>),
    e: PipelineError,
)
    requires
        0 <= i <= n,
        runs_to(ops, i, v, Err(e)),
        dims_after(ops, i, v.0, v.1) == Err::<(u32, u32), PipelineError>(e),
    ensures
        runs_to(ops, n, v, Err(e)),
        dims_after(ops, n, v.0, v.1) == Err::<(u32, u32), PipelineError>(e),
    decreases n - i,
{
    if n > i {
        lemma_run_error_persists(ops, i, n - 1, v, e);
    }
}

/// Running the empty operation list returns the input unchanged, and
/// nothing else.
pub proof fn lemma_empty_pipeline_is_identity(
    v: (u32, u32, Seq<u8>),
    r: Result<(u32, u32, Seq<u8>), PipelineError>,
)
    ensures
        runs_to(Seq::<FilterOperation>::empty(), 0, v, r) <==> r == Ok::<_, PipelineError>(v),
{
}

/// A blur with a positive sigma succeeds and keeps the width and height of
/// its input.
pub proof fn lemma_blur_keeps_dimensions(
    sigma: i32,
    v: (u32, u32, Seq<u8>),
    r: Result<(u32, u32, Seq<u8>), PipelineError>,
)
    requires
        0 < sigma,
        op_step(FilterOperation::Blur(sigma), v, r),
    ensures
        r matches Ok(u) && u.0 == v.0 && u.1 == v.1,
{
}

/// A resize to positive, addressable dimensions yields exactly those
/// dimensions; a zero dimension fails with `InvalidDimensions`.
pub proof fn lemma_resize_dimensions(
    width: u32,
    height: u32,
    v: (u32, u32, Seq<u8>),
    r: Result<(u32, u32, Seq<u8>), PipelineError>,
)
    requires
        op_step(FilterOperation::Resize { width, height }, v, r),
    ensures
        (0 < width && 0 < height && rgba_len(width as int, height as int) <= usize::MAX) ==> (
        r matches Ok(u) && u.0 == width && u.1 == height && u.2.len() == rgba_len(
            width as int,
            height as int,
        )),
        (width == 0 || height == 0) ==> r == Err::<(u32, u32, Seq<u8>), _>(
            PipelineError::InvalidDimensions,
        ),
{
}

/// Applies one operation.
fn apply_operation(op: FilterOperation, image: &PixelBuffer) -> (r: Result<
    PixelBuffer,
    PipelineError,
>)
    requires
        image.wf(),
    ensures
        r matches Ok(b) ==> b.wf() && op_dims(op, image.width, image.height) == Ok::<
            _,
            PipelineError,
        >((b.width, b.height)) && op_step(op, image@, Ok(b@)),
        r matches Err(e) ==> op_dims(op, image.width, image.height) == Err::<(u32, u32), _>(e)
            && op_step(op, image@, Err(e)),
{
    match op {
        FilterOperation::Grayscale => Ok(grayscale(image)),
        FilterOperation::Brightness(a) => Ok(brightness(image, a)),
        FilterOperation::Contrast(f) => Ok(contrast(image, f)),
        FilterOperation::Blur(sigma) => blur(image, sigma),
        FilterOperation::Sharpen => Ok(sharpen(image)),
        FilterOperation::EdgeDetect => Ok(edge_detect(image)),
        FilterOperation::Resize { width, height } => resize(image, width, height),
        FilterOperation::Invert => Ok(invert(image)),
        FilterOperation::Sepia => Ok(sepia(image)),
    }
}

/// A reusable, stateless pipeline runner.
pub struct ImagePipeline {
    /// Number of worker threads to use (0 = automatic).
    pub thread_count: usize,
}

impl ImagePipeline {
    /// A pipeline with default settings.
    pub fn new() -> (r: Self)
        ensures
            r.thread_count == 0,
    {
        ImagePipeline { thread_count: 0 }
    }

    /// A pipeline with a specific worker-thread count.
    pub fn with_threads(thread_count: usize) -> (r: Self)
        ensures
            r.thread_count == thread_count,
    {
        ImagePipeline { thread_count }
    }

    /// Applies `operations` in order to a copy of `image`, each one seeing
    /// the whole output of the one before. The first operation that fails
    /// aborts the run with its error; an empty list returns the image
    /// unchanged.
    pub fn process(&self, image: &PixelBuffer, operations: &[FilterOperation]) -> (r: Result<
        PixelBuffer,
        PipelineError,
    >)
        requires
            image.wf(),
        ensures
            r.is_ok() <==> dims_after(
                operations@,
                operations@.len() as int,
                image.width,
                image.height,
            ) is Ok,
            r matches Ok(b) ==> b.wf() && dims_after(
                operations@,
                operations@.len() as int,
                image.width,
                image.height,
            ) == Ok::<_, PipelineError>((b.width, b.height)) && runs_to(
                operations@,
                operations@.len() as int,
                image@,
                Ok(b@),
            ),
            r matches Err(e) ==> dims_after(
                operations@,
                operations@.len() as int,
                image.width,
                image.height,
            ) == Err::<(u32, u32), _>(e) && runs_to(
                operations@,
                operations@.len() as int,
                image@,
                Err(e),
            ),
    {
        let mut result = image.duplicate();
        let mut i: usize = 0;
        while i < operations.len()
            invariant
                i <= operations@.len(),
                result.wf(),
                runs_to(operations@, i as int, image@, Ok(result@)),
                dims_after(operations@, i as int, image.width, image.height) == Ok::<
                    _,
                    PipelineError,
                >((result.width, result.height)),
            decreases operations@.len() - i,
        {
            let op = operations[i];
            let ghost prev = result@;
            let ghost k = i as int + 1;
            assert(operations@[k - 1] == op);
            assert(runs_to(operations@, k - 1, image@, Ok(prev)));
            match apply_operation(op, &result) {
                Ok(next) => {
                    assert(op_step(operations@[k - 1], prev, Ok(next@)));
                    proof {
                        lemma_run_step(operations@, k, image@, prev, Ok(next@));
                    }
                    result = next;
                },
                Err(e) => {
                    assert(op_step(operations@[k - 1], prev, Err(e)));
                    proof {
                        lemma_run_step(operations@, k, image@, prev, Err(e));
                    }
                    proof {
                        lemma_run_error_persists(
                            operations@,
                            i + 1,
                            operations@.len() as int,
                            image@,
                            e,
                        );
                    }
                    return Err(e);
                },
            }
            i = i + 1;
        }
        Ok(result)
    }

    /// Decodes an image file held in memory (PNG, or another format the
    /// codec recognises) into an RGBA buffer.
    pub fn load_from_bytes(bytes: &[u8]) -> (r: Result<PixelBuffer, PipelineError>)
        ensures
            r matches Ok(b) ==> b.wf(),
            r matches Err(e) ==> e == PipelineError::UnsupportedFormat,
    {
        decode(bytes)
    }

    /// Encodes the buffer as a PNG file.
    pub fn encode_to_png(image: &PixelBuffer) -> (r: Result<Vec<u8>, PipelineError>)
        requires
            image.wf(),
        ensures
            r matches Ok(v) ==> encode_result(image.width, image.height, image.data@) == Ok::<
                _,
                PipelineError,
            >(v@),
            r matches Err(e) ==> encode_result(image.width, image.height, image.data@) == Err::<
                Seq<u8>,
                _,
            >(e),
    {
        encode(image)
    }
}

impl Default for ImagePipeline {
    fn default() -> (r: Self)
        ensures
            r.thread_count == 0,
    {
        ImagePipeline::new()
    }
}

} // verus!
