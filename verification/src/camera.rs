//! Cameras and the animated placement that cameras and objects share.

use crate::keyframe::{KeySet, Track};
use crate::scalar::Scalar;
use vstd::prelude::*;

verus! {

/// A camera: where it stands, what it looks at, and how it sees.
#[derive(Debug, PartialEq)]
pub struct CameraRoot {
    /// The target that the camera points at.
    pub interest: ModelTransform,
    pub transform: ModelTransform,
    /// The camera's own properties.
    pub view_point: ViewPoint,
}

/// Further animated camera properties.
#[derive(Debug, PartialEq)]
pub struct CameraAuxilary {
    pub gamma: KeySet,
}

/// An animated placement: a track for each axis of translation, rotation and
/// scale, and one for visibility.
#[derive(Debug, PartialEq)]
pub struct ModelTransform {
    pub translation: Vec3<KeySet>,
    pub rotation: Vec3<KeySet>,
    pub scale: Vec3<KeySet>,
    pub visibility: KeySet,
}

impl ModelTransform {
    /// Whether none of the ten tracks holds any data.
    pub open spec fn is_unset(self) -> bool {
        &&& self.translation.x@ == Track::Empty
        &&& self.translation.y@ == Track::Empty
        &&& self.translation.z@ == Track::Empty
        &&& self.rotation.x@ == Track::Empty
        &&& self.rotation.y@ == Track::Empty
        &&& self.rotation.z@ == Track::Empty
        &&& self.scale.x@ == Track::Empty
        &&& self.scale.y@ == Track::Empty
        &&& self.scale.z@ == Track::Empty
        &&& self.visibility@ == Track::Empty
    }
}

impl Default for ModelTransform {
    /// The placement in which no track holds any data.
    fn default() -> (r: Self)
        ensures
            r.is_unset(),
    {
        ModelTransform {
            translation: Vec3 { x: KeySet::Empty, y: KeySet::Empty, z: KeySet::Empty },
            rotation: Vec3 { x: KeySet::Empty, y: KeySet::Empty, z: KeySet::Empty },
            scale: Vec3 { x: KeySet::Empty, y: KeySet::Empty, z: KeySet::Empty },
            visibility: KeySet::Empty,
        }
    }
}

/// One value for each of the three axes.
#[derive(Debug, PartialEq)]
pub struct Vec3<T> {
    pub x: T,
    pub y: T,
    pub z: T,
}

/// How a camera sees: its aspect ratio, placement, lens and field of view.
#[derive(Debug, PartialEq)]
pub struct ViewPoint {
    pub aspect_ratio: Scalar,
    pub transform: ModelTransform,
    pub focal_length: KeySet,
    pub roll: KeySet,
    pub fov: FieldOfView,
}

/// The field of view of a camera.
#[derive(Debug, PartialEq)]
pub struct FieldOfView {
    /// Not zero where the angle is measured horizontally.
    pub horizontal: u8,
    /// The angle of view in radians.
    pub value: KeySet,
}

} // verus!
