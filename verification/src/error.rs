//! The ways in which building or decoding a single track can fail.

use vstd::prelude::*;

verus! {

/// Why a track could not be built or decoded. Every failure concerns one
/// track only and leaves its siblings untouched.
#[derive(Debug, Clone, Copy, PartialEq, Eq, Structural)]
pub enum CodecError {
    /// A constant track arrived without its value.
    MissingValue,
    /// Two entries of a key list share a frame index.
    DuplicateFrame,
    /// The entries of a key list are not in ascending order of frame index.
    UnorderedFrames,
    /// A track tag or a sample tag that the format does not define.
    UnsupportedVariant(u8),
    /// A sampled track was to be built from no samples at all.
    InvalidTrack,
}

} // verus!
