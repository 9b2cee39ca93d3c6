//! The value held behind an opaque handle of the flat foreign surface.
use vstd::prelude::*;

verus! {

/// One owned RGBA raster: `width * height * 4` bytes in `data`.
pub struct ImageHandle {
    pub data: Vec<u8>,
    pub width: u32,
    pub height: u32,
}

} // verus!
