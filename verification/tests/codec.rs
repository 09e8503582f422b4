use a3da::codec::{
    SAMPLE_TAG_MAX, TRACK_EMPTY, TRACK_HERMITE, TRACK_LINEAR, TRACK_STATIC, TRACK_STEP,
};
use a3da::error::CodecError;
use a3da::keyframe::{
    ExtendedPlayType, ExtendedPlayTypes, Frame, Hermite, KeySet, KeySetInner, Linear, Step,
};
use a3da::scalar::Scalar;
use a3da::wire::{KeyframeData, KeyframeInner, WireTrack};
use std::collections::BTreeMap;

fn s(x: f32) -> Scalar {
    Scalar::from_bits(x.to_bits())
}

fn hermite(value: f32, pre: f32, post: f32) -> Frame<Hermite> {
    Frame { value: s(value), interpolation: Hermite { pre: s(pre), post: s(post) } }
}

fn off() -> ExtendedPlayTypes {
    ExtendedPlayTypes { pre: ExtendedPlayType::Off, post: ExtendedPlayType::Off }
}

fn bare(ty: u8) -> WireTrack {
    WireTrack { ty, value: None, key: Vec::new(), max: None, ep_type_pre: None, ep_type_post: None }
}

fn type0(indices: &[u32]) -> Vec<KeyframeInner> {
    indices.iter().map(|&i| KeyframeInner { ty: 0, data: KeyframeData::Type0(i) }).collect()
}

fn sampled(ty: u8, key: Vec<KeyframeInner>) -> WireTrack {
    WireTrack { key, ..bare(ty) }
}

fn hermite_track() -> KeySet {
    let mut keys = BTreeMap::new();
    keys.insert(20, hermite(1.0, 2.0, 3.0));
    keys.insert(0, hermite(0.0, 0.0, 0.0));
    keys.insert(5, hermite(1.0, 2.0, 2.0));
    keys.insert(10, hermite(4.0, 0.0, 0.0));
    let ep_type = ExtendedPlayTypes { pre: ExtendedPlayType::Linear, post: ExtendedPlayType::Cycle };
    KeySet::Hermite(KeySetInner::new(keys, ep_type).unwrap())
}

#[test]
fn track_tags_are_those_of_the_format() {
    assert_eq!(
        [TRACK_EMPTY, TRACK_STATIC, TRACK_LINEAR, TRACK_HERMITE, TRACK_STEP, SAMPLE_TAG_MAX],
        [0, 1, 2, 3, 4, 3]
    );
}

#[test]
fn empty_track_encodes_to_tag_alone_and_back() {
    let wire = KeySet::Empty.encode();
    assert_eq!(wire, bare(0));
    assert_eq!(KeySet::decode(wire), Ok(KeySet::Empty));
}

#[test]
fn constant_track_encodes_to_tag_and_value_and_back() {
    let wire = KeySet::Static(s(2.5)).encode();
    assert_eq!(wire, WireTrack { value: Some(s(2.5)), ..bare(1) });
    assert_eq!(wire.value.map(|v| f32::from_bits(v.to_bits())), Some(2.5));
    assert_eq!(KeySet::decode(wire), Ok(KeySet::Static(s(2.5))));
}

#[test]
fn sampled_track_encodes_each_sample_in_its_shortest_form() {
    let wire = hermite_track().encode();
    assert_eq!(
        wire,
        WireTrack {
            ty: 3,
            value: None,
            key: vec![
                KeyframeInner { ty: 0, data: KeyframeData::Type0(0) },
                KeyframeInner { ty: 2, data: KeyframeData::Type2(5, s(1.0), s(2.0)) },
                KeyframeInner { ty: 1, data: KeyframeData::Type1(10, s(4.0)) },
                KeyframeInner { ty: 3, data: KeyframeData::Type3(20, s(1.0), s(2.0), s(3.0)) },
            ],
            max: Some(20),
            ep_type_pre: Some(ExtendedPlayType::Linear),
            ep_type_post: Some(ExtendedPlayType::Cycle),
        }
    );
}

#[test]
fn track_kind_selects_the_tag() {
    let mut linear = BTreeMap::new();
    linear.insert(1, Frame { value: s(1.0), interpolation: Linear });
    let wire = KeySet::Linear(KeySetInner::new(linear, off()).unwrap()).encode();
    assert_eq!(wire.ty, 2);
    assert_eq!(wire.key, vec![KeyframeInner { ty: 1, data: KeyframeData::Type1(1, s(1.0)) }]);

    let mut step = BTreeMap::new();
    step.insert(1, Frame { value: s(0.0), interpolation: Step });
    let wire = KeySet::Step(KeySetInner::new(step, off()).unwrap()).encode();
    assert_eq!(wire.ty, 4);
    assert_eq!(wire.key, vec![KeyframeInner { ty: 0, data: KeyframeData::Type0(1) }]);
    assert_eq!(wire.ep_type_pre, Some(ExtendedPlayType::Off));
    assert_eq!(wire.ep_type_post, Some(ExtendedPlayType::Off));

    assert_eq!(hermite_track().encode().ty, 3);
}

#[test]
fn round_trip_gives_the_track_back() {
    let mut linear = BTreeMap::new();
    linear.insert(3, Frame { value: s(1.0), interpolation: Linear });
    linear.insert(9, Frame { value: s(0.0), interpolation: Linear });
    let mut step = BTreeMap::new();
    step.insert(0, Frame { value: s(-0.0), interpolation: Step });
    step.insert(u32::MAX, Frame { value: s(f32::NAN), interpolation: Step });
    let cycle = ExtendedPlayTypes { pre: ExtendedPlayType::CycleOffset, post: ExtendedPlayType::Off };
    let tracks = [
        KeySet::Empty,
        KeySet::Static(s(0.0)),
        KeySet::Static(s(2.5)),
        KeySet::Linear(KeySetInner::new(linear, cycle).unwrap()),
        KeySet::Step(KeySetInner::new(step, off()).unwrap()),
        hermite_track(),
    ];
    for track in tracks.iter() {
        assert_eq!(KeySet::decode(track.encode()).as_ref(), Ok(track));
    }
}

#[test]
fn encoding_is_stable_over_a_round_trip() {
    let wire = hermite_track().encode();
    let again = KeySet::decode(wire.clone()).unwrap().encode();
    assert_eq!(again, wire);
}

#[test]
fn decode_reads_samples_in_list_order() {
    let key = vec![
        KeyframeInner { ty: 1, data: KeyframeData::Type1(2, s(1.0)) },
        KeyframeInner { ty: 3, data: KeyframeData::Type3(4, s(2.0), s(1.0), s(5.0)) },
        KeyframeInner { ty: 0, data: KeyframeData::Type0(6) },
    ];
    let track = KeySet::decode(sampled(3, key.clone())).unwrap();
    let inner = match &track {
        KeySet::Hermite(inner) => inner,
        other => panic!("not a Hermite track: {:?}", other),
    };
    assert_eq!(
        inner.entries(),
        vec![(2, hermite(1.0, 0.0, 0.0)), (4, hermite(2.0, 1.0, 5.0)), (6, hermite(0.0, 0.0, 0.0))]
    );
    let indices: Vec<u32> = track.encode().key.iter().map(|entry| entry.data.index()).collect();
    assert_eq!(indices, vec![2, 4, 6]);
    assert_eq!(track.encode().key, key);
}

#[test]
fn decode_normalises_entries_that_are_longer_than_needed() {
    let key = vec![KeyframeInner { ty: 3, data: KeyframeData::Type3(2, s(0.0), s(0.0), s(0.0)) }];
    let track = KeySet::decode(sampled(3, key)).unwrap();
    assert_eq!(track.encode().key, type0(&[2]));
}

#[test]
fn linear_track_drops_tangents_found_on_the_wire() {
    let key = vec![KeyframeInner { ty: 2, data: KeyframeData::Type2(2, s(1.0), s(9.0)) }];
    let track = KeySet::decode(sampled(2, key)).unwrap();
    let mut keys = BTreeMap::new();
    keys.insert(2, Frame { value: s(1.0), interpolation: Linear });
    assert_eq!(track, KeySet::Linear(KeySetInner::new(keys, off()).unwrap()));
}

#[test]
fn descending_indices_are_refused() {
    assert_eq!(KeySet::decode(sampled(2, type0(&[3, 1]))), Err(CodecError::UnorderedFrames));
    assert_eq!(KeySet::decode(sampled(3, type0(&[1, 2, 5, 4]))), Err(CodecError::UnorderedFrames));
    assert_eq!(KeySet::decode(sampled(4, type0(&[9, 0]))), Err(CodecError::UnorderedFrames));
}

#[test]
fn repeated_indices_are_refused() {
    assert_eq!(KeySet::decode(sampled(2, type0(&[1, 1]))), Err(CodecError::DuplicateFrame));
    assert_eq!(KeySet::decode(sampled(3, type0(&[1, 3, 1]))), Err(CodecError::DuplicateFrame));
    assert_eq!(KeySet::decode(sampled(4, type0(&[4, 2, 7, 7]))), Err(CodecError::DuplicateFrame));
    assert_eq!(KeySet::decode(sampled(4, type0(&[4, 2, 7, 4]))), Err(CodecError::DuplicateFrame));
}

#[test]
fn unknown_track_tag_is_refused() {
    assert_eq!(KeySet::decode(bare(5)), Err(CodecError::UnsupportedVariant(5)));
    assert_eq!(KeySet::decode(bare(255)), Err(CodecError::UnsupportedVariant(255)));
    let full = WireTrack { value: Some(s(1.0)), ..sampled(9, type0(&[1, 2])) };
    assert_eq!(KeySet::decode(full), Err(CodecError::UnsupportedVariant(9)));
}

#[test]
fn unknown_sample_tag_is_refused_first() {
    let mut key = type0(&[1, 2, 3]);
    key[1].ty = 4;
    key[2].ty = 200;
    assert_eq!(KeySet::decode(sampled(2, key)), Err(CodecError::UnsupportedVariant(4)));
    let mut key = type0(&[5, 5, 1]);
    key[2].ty = 7;
    assert_eq!(KeySet::decode(sampled(3, key)), Err(CodecError::UnsupportedVariant(7)));
}

#[test]
fn sample_tag_within_range_need_not_match_the_fields() {
    let key = vec![KeyframeInner { ty: 3, data: KeyframeData::Type1(2, s(1.0)) }];
    let track = KeySet::decode(sampled(3, key)).unwrap();
    assert_eq!(
        track.encode().key,
        vec![KeyframeInner { ty: 1, data: KeyframeData::Type1(2, s(1.0)) }]
    );
}

#[test]
fn constant_track_needs_its_value() {
    assert_eq!(KeySet::decode(bare(1)), Err(CodecError::MissingValue));
    assert_eq!(KeySet::decode(sampled(1, type0(&[1]))), Err(CodecError::MissingValue));
}

#[test]
fn sampled_track_without_entries_is_refused() {
    assert_eq!(KeySet::decode(bare(2)), Err(CodecError::InvalidTrack));
    assert_eq!(KeySet::decode(bare(3)), Err(CodecError::InvalidTrack));
    assert_eq!(KeySet::decode(bare(4)), Err(CodecError::InvalidTrack));
    let wire = WireTrack { value: Some(s(1.0)), max: Some(3), ..bare(2) };
    assert_eq!(KeySet::decode(wire), Err(CodecError::InvalidTrack));
}

#[test]
fn fields_that_the_tag_does_not_call_for_are_ignored() {
    let wire = WireTrack {
        value: Some(s(1.0)),
        max: Some(7),
        ep_type_pre: Some(ExtendedPlayType::Cycle),
        ..sampled(0, type0(&[3, 1, 1]))
    };
    assert_eq!(KeySet::decode(wire), Ok(KeySet::Empty));
    let wire = WireTrack { value: Some(s(1.0)), max: Some(7), ..sampled(1, type0(&[3, 1])) };
    assert_eq!(KeySet::decode(wire), Ok(KeySet::Static(s(1.0))));
}

#[test]
fn max_is_advisory() {
    let plain = KeySet::decode(sampled(2, type0(&[1, 4]))).unwrap();
    for max in [None, Some(0), Some(4), Some(1000)] {
        let wire = WireTrack { max, ..sampled(2, type0(&[1, 4])) };
        let track = KeySet::decode(wire).unwrap();
        assert_eq!(track, plain);
        assert_eq!(track.extent(), Some((1, 4)));
        assert_eq!(track.encode().max, Some(4));
    }
}

#[test]
fn encode_emits_the_greatest_key_as_max() {
    assert_eq!(hermite_track().encode().max, Some(20));
    assert_eq!(KeySet::Empty.encode().max, None);
    assert_eq!(KeySet::Static(s(1.0)).encode().max, None);
    let mut keys = BTreeMap::new();
    keys.insert(u32::MAX, Frame { value: s(1.0), interpolation: Step });
    keys.insert(0, Frame { value: s(1.0), interpolation: Step });
    assert_eq!(KeySet::Step(KeySetInner::new(keys, off()).unwrap()).encode().max, Some(u32::MAX));
}

#[test]
fn absent_continuation_is_off() {
    let track = KeySet::decode(sampled(2, type0(&[1]))).unwrap();
    match track {
        KeySet::Linear(inner) => assert_eq!(inner.ep_type(), off()),
        other => panic!("not a linear track: {:?}", other),
    }
    let wire = WireTrack { ep_type_post: Some(ExtendedPlayType::CycleOffset), ..sampled(4, type0(&[1])) };
    match KeySet::decode(wire).unwrap() {
        KeySet::Step(inner) => assert_eq!(
            inner.ep_type(),
            ExtendedPlayTypes { pre: ExtendedPlayType::Off, post: ExtendedPlayType::CycleOffset }
        ),
        other => panic!("not a step track: {:?}", other),
    }
}

#[test]
fn convert_builds_the_samples_of_a_key_list() {
    let key = vec![
        KeyframeInner { ty: 1, data: KeyframeData::Type1(2, s(1.0)) },
        KeyframeInner { ty: 2, data: KeyframeData::Type2(4, s(2.0), s(1.0)) },
    ];
    let ep_type = ExtendedPlayTypes { pre: ExtendedPlayType::Cycle, post: ExtendedPlayType::Linear };
    let inner = KeySetInner::<Frame<Hermite>>::convert(key, ep_type).unwrap();
    let mut keys = BTreeMap::new();
    keys.insert(4, hermite(2.0, 1.0, 1.0));
    keys.insert(2, hermite(1.0, 0.0, 0.0));
    assert_eq!(inner, KeySetInner::new(keys, ep_type).unwrap());
}

#[test]
fn convert_reports_each_fault() {
    assert_eq!(
        KeySetInner::<Frame<Linear>>::convert(Vec::new(), off()),
        Err(CodecError::InvalidTrack)
    );
    assert_eq!(
        KeySetInner::<Frame<Linear>>::convert(type0(&[2, 2]), off()),
        Err(CodecError::DuplicateFrame)
    );
    assert_eq!(
        KeySetInner::<Frame<Step>>::convert(type0(&[2, 1]), off()),
        Err(CodecError::UnorderedFrames)
    );
    let mut key = type0(&[2]);
    key[0].ty = 4;
    assert_eq!(
        KeySetInner::<Frame<Hermite>>::convert(key, off()),
        Err(CodecError::UnsupportedVariant(4))
    );
}

#[test]
fn to_wire_uses_the_tag_it_is_given() {
    let mut keys = BTreeMap::new();
    keys.insert(3, hermite(1.0, 0.0, 0.0));
    let inner = KeySetInner::new(keys, off()).unwrap();
    let wire = inner.to_wire(3);
    assert_eq!(wire.ty, 3);
    assert_eq!(wire.max, Some(3));
    assert_eq!(wire.value, None);
}

#[test]
fn a_wrong_max_can_be_reported() {
    let track = KeySet::decode(sampled(2, type0(&[1, 4]))).unwrap();
    assert!(!track.max_disagrees(None));
    assert!(!track.max_disagrees(Some(4)));
    assert!(track.max_disagrees(Some(5)));
    assert!(track.max_disagrees(Some(1)));
    assert!(!KeySet::Empty.max_disagrees(Some(5)));
    assert!(!KeySet::Static(s(1.0)).max_disagrees(Some(5)));
}
