//! Core of a real-time media compositor for a capture engine.
//!
//! The crate holds the verified heart of the pipeline: pixel-format
//! conversion kernels, a pre-sized frame pool, the video distribution
//! logic, the scene store with its transform-cache invalidation
//! protocol, and the audio configuration types.
//!
//! Numeric screen-space values (positions, scales, matrices) are carried
//! through the scene store as opaque IEEE-754 bit patterns; the store
//! never interprets them, and the floating-point transform calculator
//! lives outside the verified core.

use vstd::prelude::*;

pub mod audio_types;
pub mod channels;
pub mod convert;
pub mod frame_pool;
pub mod scene_types;
pub mod render;
pub mod scene;
pub mod transform;
pub mod video_output;
pub mod video_types;

verus! {

/// Library version string.
pub fn version() -> (s: &'static str)
    ensures
        s@ == "0.1.0"@,
{
    "0.1.0"
}

} // verus!
