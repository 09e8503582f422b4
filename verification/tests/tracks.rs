use a3da::camera::ModelTransform;
use a3da::error::CodecError;
use a3da::keyframe::{
    ExtendedPlayType, ExtendedPlayTypes, Frame, Hermite, KeySet, KeySetInner, Linear,
};
use a3da::scalar::Scalar;
use std::collections::BTreeMap;

fn s(x: f32) -> Scalar {
    Scalar::from_bits(x.to_bits())
}

fn linear(value: f32) -> Frame<Linear> {
    Frame { value: s(value), interpolation: Linear }
}

fn cycle() -> ExtendedPlayTypes {
    ExtendedPlayTypes { pre: ExtendedPlayType::Cycle, post: ExtendedPlayType::CycleOffset }
}

#[test]
fn sampled_track_needs_a_sample() {
    let empty: BTreeMap<u32, Frame<Linear>> = BTreeMap::new();
    assert_eq!(KeySetInner::new(empty, cycle()), Err(CodecError::InvalidTrack));
    let none: BTreeMap<u32, Frame<Hermite>> = BTreeMap::new();
    assert_eq!(
        KeySetInner::new(none, ExtendedPlayTypes::default()).err(),
        Some(CodecError::InvalidTrack)
    );
}

#[test]
fn sampled_track_keeps_what_it_is_built_from() {
    let mut keys = BTreeMap::new();
    keys.insert(8, linear(2.0));
    keys.insert(3, linear(1.0));
    let inner = KeySetInner::new(keys.clone(), cycle()).unwrap();
    assert_eq!(inner.keys(), &keys);
    assert_eq!(inner.ep_type(), cycle());
    assert_eq!(inner.clone(), inner);
}

#[test]
fn entries_come_in_ascending_order() {
    let mut keys = BTreeMap::new();
    keys.insert(40, linear(4.0));
    keys.insert(0, linear(0.5));
    keys.insert(7, linear(7.0));
    keys.insert(u32::MAX, linear(9.0));
    let inner = KeySetInner::new(keys, cycle()).unwrap();
    assert_eq!(
        inner.entries(),
        vec![(0, linear(0.5)), (7, linear(7.0)), (40, linear(4.0)), (u32::MAX, linear(9.0))]
    );
}

#[test]
fn extent_is_first_and_last_frame() {
    let mut keys = BTreeMap::new();
    keys.insert(40, linear(4.0));
    keys.insert(12, linear(0.5));
    keys.insert(7, linear(7.0));
    let inner = KeySetInner::new(keys, cycle()).unwrap();
    assert_eq!(inner.extent(), (7, 40));
    assert_eq!(KeySet::Linear(inner).extent(), Some((7, 40)));
}

#[test]
fn extent_of_a_single_sample() {
    let mut keys = BTreeMap::new();
    keys.insert(5, linear(1.0));
    let inner = KeySetInner::new(keys, cycle()).unwrap();
    assert_eq!(inner.extent(), (5, 5));
}

#[test]
fn tracks_without_samples_have_no_extent() {
    assert_eq!(KeySet::Empty.extent(), None);
    assert_eq!(KeySet::Static(s(2.5)).extent(), None);
}

#[test]
fn defaults_hold_no_data() {
    assert_eq!(KeySet::default(), KeySet::Empty);
    assert_eq!(ExtendedPlayType::default(), ExtendedPlayType::Off);
    assert_eq!(
        ExtendedPlayTypes::default(),
        ExtendedPlayTypes { pre: ExtendedPlayType::Off, post: ExtendedPlayType::Off }
    );
    let transform = ModelTransform::default();
    assert_eq!(transform.translation.x, KeySet::Empty);
    assert_eq!(transform.rotation.y, KeySet::Empty);
    assert_eq!(transform.scale.z, KeySet::Empty);
    assert_eq!(transform.visibility, KeySet::Empty);
}

#[test]
fn clone_of_a_track_is_equal() {
    let mut keys = BTreeMap::new();
    keys.insert(1, Frame { value: s(1.0), interpolation: Hermite { pre: s(2.0), post: s(3.0) } });
    let track = KeySet::Hermite(KeySetInner::new(keys, cycle()).unwrap());
    assert_eq!(track.clone(), track);
    assert_eq!(KeySet::Static(s(1.0)).clone(), KeySet::Static(s(1.0)));
    assert_ne!(KeySet::Static(s(1.0)), KeySet::Empty);
}

#[test]
fn counts_are_narrowed_to_32_bits() {
    assert_eq!(a3da::ffi::saturate(0), 0);
    assert_eq!(a3da::ffi::saturate(60), 60);
    assert_eq!(a3da::ffi::saturate(u32::MAX as usize), u32::MAX);
    assert_eq!(a3da::ffi::saturate(usize::MAX), u32::MAX);
    let flat = a3da::ffi::PlayControl::from(a3da::PlayControl { begin: 1, fps: 60, size: usize::MAX });
    assert_eq!(flat, a3da::ffi::PlayControl { begin: 1, fps: 60, size: u32::MAX });
}

#[test]
fn document_is_flattened_for_other_runtimes() {
    let metadata = a3da::metadata::Metadata {
        converter: a3da::metadata::Converter { version: 20050823 },
        property: a3da::metadata::Property { version: 20050706 },
        file_name: String::from("CAMPV001_BASE.a3da"),
    };
    assert_eq!(
        a3da::ffi::Metadata::from(a3da::metadata::Metadata {
            converter: metadata.converter,
            property: metadata.property,
            file_name: metadata.file_name.clone(),
        }),
        a3da::ffi::Metadata { converter_version: 20050823, property_version: 20050706 }
    );
    let document = a3da::A3da {
        camera_roots: Vec::new(),
        objects: Vec::new(),
        play_control: a3da::PlayControl { begin: 0, fps: 60, size: 1200 },
        metadata,
    };
    assert_eq!(
        a3da::ffi::Auth3d::from(document),
        a3da::ffi::Auth3d {
            play_control: a3da::ffi::PlayControl { begin: 0, fps: 60, size: 1200 },
            metadata: a3da::ffi::Metadata::default(),
        }
    );
    assert_eq!(
        a3da::ffi::Auth3d::default(),
        a3da::ffi::Auth3d {
            play_control: a3da::ffi::PlayControl { begin: 0, fps: 0, size: 0 },
            metadata: a3da::ffi::Metadata { converter_version: 0, property_version: 0 },
        }
    );
}
