//! Animation tracks of a scene description and the codec between their
//! in-memory form and their compact wire form.
//!
//! A track is empty, constant, or a set of samples ordered by frame index
//! ([`keyframe`]). On the wire every sample takes the fewest fields that can
//! hold it ([`wire`]); [`codec`] translates between the two forms, and
//! [`laws`] proves that nothing is lost on the way. The remaining modules
//! describe the document in which the tracks live, and [`ffi`] the part of
//! it that is handed to other runtimes.

use crate::camera::CameraRoot;
use crate::metadata::Metadata;
use crate::object::Object;
use vstd::prelude::*;

pub mod ascending;
pub mod camera;
pub mod codec;
pub mod error;
pub mod ffi;
pub mod keyframe;
pub mod laws;
pub mod metadata;
pub mod object;
pub mod scalar;
pub mod wire;

verus! {

/// A whole scene document: its cameras and objects, the playback range and
/// the file's metadata.
#[derive(Debug, PartialEq)]
pub struct A3da {
    pub camera_roots: Vec<CameraRoot>,
    pub objects: Vec<Object>,
    pub play_control: PlayControl,
    pub metadata: Metadata,
}

/// The playback range of a document, in frames, and its frame rate.
#[derive(Debug, Clone, Copy, PartialEq, Eq, Structural)]
pub struct PlayControl {
    pub begin: usize,
    pub fps: usize,
    pub size: usize,
}

} // verus!
