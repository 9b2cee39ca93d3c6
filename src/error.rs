use vstd::prelude::*;

verus! {

/// The ways an operation of the engine can fail.
#[derive(Debug, Clone, Copy, PartialEq, Eq, Structural)]
pub enum PipelineError {
    /// A byte length does not match `width * height * 4`, or a target
    /// dimension is zero or too large to address.
    InvalidDimensions,
    /// The bytes handed to the decoder are not a recognised raster format.
    UnsupportedFormat,
    /// A filter parameter lies outside its domain (a blur sigma that is not
    /// positive).
    InvalidParameter,
    /// The codec failed while producing its output bytes.
    IoFailure,
}

impl PipelineError {
    /// A short human-readable description of the error.
    pub fn message(&self) -> (r: &'static str)
        ensures
            *self == PipelineError::InvalidDimensions ==> r@ == "invalid dimensions"@,
            *self == PipelineError::UnsupportedFormat ==> r@ == "unsupported image format"@,
            *self == PipelineError::InvalidParameter ==> r@ == "invalid parameter"@,
            *self == PipelineError::IoFailure ==> r@ == "i/o failure"@,
    {
        match self {
            PipelineError::InvalidDimensions => "invalid dimensions",
            PipelineError::UnsupportedFormat => "unsupported image format",
            PipelineError::InvalidParameter => "invalid parameter",
            PipelineError::IoFailure => "i/o failure",
        }
    }
}

} // verus!
