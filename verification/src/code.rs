//! Stable machine-readable error codes shared by the viewer and its decoders.
use vstd::prelude::*;

verus! {

pub const ANIMATION_LIMIT_EXCEEDED: &'static str = "animation_limit_exceeded";

pub const CACHE_LIMIT_EXCEEDED: &'static str = "cache_limit_exceeded";

pub const DECODE_DEADLINE_EXCEEDED: &'static str = "decode_deadline_exceeded";

pub const DECODER_PANIC: &'static str = "decoder_panic";

pub const INVALID_PATH: &'static str = "invalid_path";

pub const IO_ERROR: &'static str = "io_error";

pub const CORRUPT_IMAGE: &'static str = "corrupt_image";

} // verus!
