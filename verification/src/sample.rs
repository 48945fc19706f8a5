//! The value type produced by the analyzer: one downsampled instant of the
//! track, split into three energy bands. Band energies are quantized,
//! non-negative integers (fixed-point energies scaled by the front end).

use vstd::prelude::*;

verus! {

/// Number of preview samples the analyzer emits per decoded packet.
pub const PREVIEW_SAMPLES_PER_PACKET: usize = 4;

/// Three independent band energies for one downsampled instant.
/// Immutable once produced.
#[derive(Clone, Copy, PartialEq, Eq, Structural, Debug)]
pub struct PreviewSample {
    pub lows: u32,
    pub mids: u32,
    pub highs: u32,
}

impl PreviewSample {
    /// The all-zero sample, used to pad preview windows past the
    /// edges of the analyzed buffer.
    pub open spec fn zero_spec() -> PreviewSample {
        PreviewSample { lows: 0, mids: 0, highs: 0 }
    }

    /// Builds the all-zero padding sample.
    pub fn zero() -> (r: PreviewSample)
        ensures
            r == PreviewSample::zero_spec(),
    {
        PreviewSample { lows: 0, mids: 0, highs: 0 }
    }

    /// Builds a sample from its three band energies.
    pub fn new(lows: u32, mids: u32, highs: u32) -> (r: PreviewSample)
        ensures
            r.lows == lows,
            r.mids == mids,
            r.highs == highs,
    {
        PreviewSample { lows, mids, highs }
    }
}

} // verus!
