//! The part of a document that is handed to other runtimes: flat records of
//! fixed-width numbers.

use vstd::prelude::*;

verus! {

/// The document as other runtimes see it.
#[derive(Debug, Clone, Copy, PartialEq, Eq, Structural)]
pub struct Auth3d {
    pub play_control: PlayControl,
    pub metadata: Metadata,
}

/// The playback range and frame rate in 32 bits each.
#[derive(Debug, Clone, Copy, PartialEq, Eq, Structural)]
pub struct PlayControl {
    pub begin: u32,
    pub fps: u32,
    pub size: u32,
}

/// The versions recorded in a document's metadata.
#[derive(Debug, Clone, Copy, PartialEq, Eq, Structural)]
pub struct Metadata {
    pub converter_version: u32,
    pub property_version: u32,
}

/// The number nearest to `n` that 32 bits can hold.
pub open spec fn saturated(n: usize) -> u32 {
    if n <= u32::MAX {
        n as u32
    } else {
        u32::MAX
    }
}

/// Narrows a count to 32 bits; what does not fit becomes the greatest value.
pub fn saturate(n: usize) -> (r: u32)
    ensures
        r == saturated(n),
{
    if n <= 0xffff_ffff {
        n as u32
    } else {
        u32::MAX
    }
}

impl Default for PlayControl {
    fn default() -> (r: Self)
        ensures
            r == (PlayControl { begin: 0, fps: 0, size: 0 }),
    {
        PlayControl { begin: 0, fps: 0, size: 0 }
    }
}

impl Default for Metadata {
    fn default() -> (r: Self)
        ensures
            r == (Metadata { converter_version: 0, property_version: 0 }),
    {
        Metadata { converter_version: 0, property_version: 0 }
    }
}

impl Default for Auth3d {
    fn default() -> (r: Self)
        ensures
            r == (Auth3d {
                play_control: PlayControl { begin: 0, fps: 0, size: 0 },
                metadata: Metadata { converter_version: 0, property_version: 0 },
            }),
    {
        Auth3d { play_control: PlayControl::default(), metadata: Metadata::default() }
    }
}

impl vstd::std_specs::convert::FromSpecImpl<crate::PlayControl> for PlayControl {
    open spec fn obeys_from_spec() -> bool {
        true
    }

    open spec fn from_spec(value: crate::PlayControl) -> Self {
        PlayControl {
            begin: saturated(value.begin),
            fps: saturated(value.fps),
            size: saturated(value.size),
        }
    }
}

impl From<crate::PlayControl> for PlayControl {
    /// Each field narrowed to 32 bits.
    fn from(value: crate::PlayControl) -> (r: Self) {
        PlayControl {
            begin: saturate(value.begin),
            fps: saturate(value.fps),
            size: saturate(value.size),
        }
    }
}

impl vstd::std_specs::convert::FromSpecImpl<crate::metadata::Metadata> for Metadata {
    open spec fn obeys_from_spec() -> bool {
        true
    }

    open spec fn from_spec(value: crate::metadata::Metadata) -> Self {
        Metadata {
            converter_version: value.converter.version,
            property_version: value.property.version,
        }
    }
}

impl From<crate::metadata::Metadata> for Metadata {
    /// The two versions; the file name stays behind.
    fn from(value: crate::metadata::Metadata) -> (r: Self) {
        Metadata {
            converter_version: value.converter.version,
            property_version: value.property.version,
        }
    }
}

impl vstd::std_specs::convert::FromSpecImpl<crate::A3da> for Auth3d {
    open spec fn obeys_from_spec() -> bool {
        true
    }

    open spec fn from_spec(value: crate::A3da) -> Self {
        Auth3d {
            play_control: PlayControl {
                begin: saturated(value.play_control.begin),
                fps: saturated(value.play_control.fps),
                size: saturated(value.play_control.size),
            },
            metadata: Metadata { converter_version: 0, property_version: 0 },
        }
    }
}

impl From<crate::A3da> for Auth3d {
    /// The playback range of the document. Cameras and objects are not
    /// handed on, and the metadata is left at its default.
    fn from(value: crate::A3da) -> (r: Self) {
        Auth3d { play_control: PlayControl::from(value.play_control), metadata: Metadata::default() }
    }
}

} // verus!
