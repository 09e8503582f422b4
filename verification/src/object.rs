//! The objects of a scene.

use crate::camera::ModelTransform;
use vstd::prelude::*;

verus! {

/// A named object and its animated placement.
#[derive(Debug, PartialEq)]
pub struct Object {
    pub name: String,
    pub uid_name: String,
    pub transform: ModelTransform,
}

} // verus!
