//! What the decoder hands to the measurement engines.
use vstd::prelude::*;

verus! {

/// The layout of a stream.
pub struct AudioInfo {
    /// Samples per second.
    pub rate: u32,
    /// Number of channels.
    pub channels: u32,
}

/// A buffer of decoded samples: interleaved in one array, or one array per
/// channel.
pub enum FrameType<'a, T> {
    Packed(&'a [T]),
    Planar(&'a [&'a [T]]),
}

} // verus!
