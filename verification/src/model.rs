//! Decoded images and the fixed resource limits of decoding.
use vstd::prelude::*;

verus! {

/// The largest accepted source file: 256 MiB.
pub const MAX_INPUT_BYTES: u64 = 268_435_456;

/// The largest known decode working set, and the render cache limit: 512 MiB.
pub const MAX_DECODE_BYTES: u64 = 536_870_912;

/// A render ready for display: encoded bytes with their MIME type.
#[derive(Debug)]
pub struct DecodedRender {
    pub bytes: Vec<u8>,
    pub mime_type: &'static str,
    pub width: u32,
    pub height: u32,
    pub animated: bool,
}

/// A decoded RGBA8 pixel plane.
#[derive(Debug)]
pub struct DecodedRgba8 {
    pub rgba: Vec<u8>,
    pub width: u32,
    pub height: u32,
}

} // verus!
