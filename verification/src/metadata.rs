//! The metadata block of a document.

use vstd::prelude::*;

verus! {

/// Where a document comes from.
#[derive(Debug, PartialEq, Eq)]
pub struct Metadata {
    pub converter: Converter,
    pub property: Property,
    pub file_name: String,
}

/// The version of the converter that wrote the document.
#[derive(Debug, Clone, Copy, PartialEq, Eq, Structural)]
pub struct Converter {
    pub version: u32,
}

/// The version of the property set that the document uses.
#[derive(Debug, Clone, Copy, PartialEq, Eq, Structural)]
pub struct Property {
    pub version: u32,
}

} // verus!
