//! The codec between tracks and their wire form.

use crate::ascending::{
    ascending_keys, has_duplicates, lemma_ascending_step, lemma_prefix_faults, strictly_ascending,
};
use crate::error::CodecError;
use crate::keyframe::{
    ExtendedPlayType, ExtendedPlayTypes, Frame, FrameInterpolation, Hermite, KeySet, KeySetInner,
    Linear, Samples, Step, Track,
};
use crate::wire::{entry_indices, KeyframeData, KeyframeInner, WireTrack, WireTrackView};
use std::collections::BTreeMap;
use vstd::prelude::*;

verus! {

/// The tag of a track without data.
pub const TRACK_EMPTY: u8 = 0;

/// The tag of a track with one constant value.
pub const TRACK_STATIC: u8 = 1;

/// The tag of a sampled track with linear interpolation.
pub const TRACK_LINEAR: u8 = 2;

/// The tag of a sampled track with Hermite interpolation.
pub const TRACK_HERMITE: u8 = 3;

/// The tag of a sampled track with stepped interpolation.
pub const TRACK_STEP: u8 = 4;

/// The greatest tag that a sample entry can carry.
pub const SAMPLE_TAG_MAX: u8 = 3;

/// A result seen through the view of what it holds on success.
pub open spec fn view_result<T: View, E>(r: Result<T, E>) -> Result<T::V, E> {
    match r {
        Ok(t) => Ok(t@),
        Err(e) => Err(e),
    }
}

/// The key list that stores `keys`: one entry for each sample, in ascending
/// order of frame index, each in its shortest form.
pub open spec fn wire_entries<P: FrameInterpolation>(keys: Map<u32, Frame<P>>) -> Seq<KeyframeInner> {
    ascending_keys(keys.dom()).map_values(
        |k: u32| KeyframeInner::tagged(KeyframeData::compose_spec(k, keys[k])),
    )
}

/// The greatest member of `keys`, if there is any.
pub open spec fn greatest_key(keys: Set<u32>) -> Option<u32> {
    if ascending_keys(keys).len() > 0 {
        Some(ascending_keys(keys).last())
    } else {
        None
    }
}

/// The wire form of a sampled track under the tag `ty`.
pub open spec fn sampled_to_wire<P: FrameInterpolation>(ty: u8, samples: Samples<Frame<P>>) -> WireTrackView {
    WireTrackView {
        ty,
        value: None,
        key: wire_entries(samples.keys),
        max: greatest_key(samples.keys.dom()),
        ep_type_pre: Some(samples.ep_type.pre),
        ep_type_post: Some(samples.ep_type.post),
    }
}

/// The wire form of a track.
pub open spec fn encode_spec(track: Track) -> WireTrackView {
    match track {
        Track::Empty => WireTrackView {
            ty: TRACK_EMPTY,
            value: None,
            key: Seq::empty(),
            max: None,
            ep_type_pre: None,
            ep_type_post: None,
        },
        Track::Constant(value) => WireTrackView {
            ty: TRACK_STATIC,
            value: Some(value),
            key: Seq::empty(),
            max: None,
            ep_type_pre: None,
            ep_type_post: None,
        },
        Track::Linear(samples) => sampled_to_wire(TRACK_LINEAR, samples),
        Track::Hermite(samples) => sampled_to_wire(TRACK_HERMITE, samples),
        Track::Step(samples) => sampled_to_wire(TRACK_STEP, samples),
    }
}

/// The tag of the first entry whose tag is not one of the four sample tags.
pub open spec fn first_unsupported(key: Seq<KeyframeInner>) -> Option<u8>
    decreases key.len(),
{
    if key.len() == 0 {
        None
    } else {
        match first_unsupported(key.drop_last()) {
            Some(tag) => Some(tag),
            None => if key.last().ty > SAMPLE_TAG_MAX {
                Some(key.last().ty)
            } else {
                None
            },
        }
    }
}

/// The samples that a key list holds, read as kind `P`, each under its frame
/// index.
pub open spec fn samples_of<P: FrameInterpolation>(key: Seq<KeyframeInner>) -> Map<u32, Frame<P>>
    decreases key.len(),
{
    if key.len() == 0 {
        Map::empty()
    } else {
        let (index, frame) = key.last().data.decompose_spec::<P>();
        samples_of::<P>(key.drop_last()).insert(index, frame)
    }
}

/// What a key list and the continuation read with it decode to.
///
/// A list is refused, in this order of precedence: for an entry with an
/// unknown tag (the first one is reported), for being empty, for two entries
/// with the same frame index, and for frame indices that do not ascend.
pub open spec fn sampled_from_wire<P: FrameInterpolation>(
    key: Seq<KeyframeInner>,
    ep_type: ExtendedPlayTypes,
) -> Result<Samples<Frame<P>>, CodecError> {
    match first_unsupported(key) {
        Some(tag) => Err(CodecError::UnsupportedVariant(tag)),
        None => if key.len() == 0 {
            Err(CodecError::InvalidTrack)
        } else if has_duplicates(entry_indices(key)) {
            Err(CodecError::DuplicateFrame)
        } else if !strictly_ascending(entry_indices(key)) {
            Err(CodecError::UnorderedFrames)
        } else {
            Ok(Samples { keys: samples_of::<P>(key), ep_type })
        },
    }
}

/// The continuation that a wire track announces; a side that it leaves out
/// is `Off`.
pub open spec fn wire_ep_type(wire: WireTrackView) -> ExtendedPlayTypes {
    ExtendedPlayTypes {
        pre: match wire.ep_type_pre {
            Some(pre) => pre,
            None => ExtendedPlayType::Off,
        },
        post: match wire.ep_type_post {
            Some(post) => post,
            None => ExtendedPlayType::Off,
        },
    }
}

/// What a wire track decodes to. The field `max` plays no part in it.
pub open spec fn decode_spec(wire: WireTrackView) -> Result<Track, CodecError> {
    if wire.ty == TRACK_EMPTY {
        Ok(Track::Empty)
    } else if wire.ty == TRACK_STATIC {
        match wire.value {
            Some(value) => Ok(Track::Constant(value)),
            None => Err(CodecError::MissingValue),
        }
    } else if wire.ty == TRACK_LINEAR {
        match sampled_from_wire::<Linear>(wire.key, wire_ep_type(wire)) {
            Ok(samples) => Ok(Track::Linear(samples)),
            Err(e) => Err(e),
        }
    } else if wire.ty == TRACK_HERMITE {
        match sampled_from_wire::<Hermite>(wire.key, wire_ep_type(wire)) {
            Ok(samples) => Ok(Track::Hermite(samples)),
            Err(e) => Err(e),
        }
    } else if wire.ty == TRACK_STEP {
        match sampled_from_wire::<Step>(wire.key, wire_ep_type(wire)) {
            Ok(samples) => Ok(Track::Step(samples)),
            Err(e) => Err(e),
        }
    } else {
        Err(CodecError::UnsupportedVariant(wire.ty))
    }
}

impl<P: FrameInterpolation> KeySetInner<Frame<P>> {
    /// The wire form of the samples under the track tag `ty`: the entries in
    /// ascending order of frame index, each in its shortest form, the
    /// greatest frame index as `max`, and the continuation on both sides.
    pub fn to_wire(&self, ty: u8) -> (wire: WireTrack)
        ensures
            wire@ == sampled_to_wire(ty, self@),
            self@.valid(),
    {
        let entries = self.entries();
        let mut key: Vec<KeyframeInner> = Vec::new();
        let mut max: Option<u32> = None;
        let n = entries.len();
        for i in 0..n
            invariant
                n == entries@.len(),
                entries@ == self@.entries(),
                key@.len() == i,
                forall|j: int|
                    0 <= j < i ==> #[trigger] key@[j] == KeyframeInner::tagged(
                        KeyframeData::compose_spec(entries@[j].0, entries@[j].1),
                    ),
                max == (if i > 0 {
                    Some(entries@[i - 1].0)
                } else {
                    None
                }),
        {
            let entry = entries[i];
            key.push(KeyframeInner::from(KeyframeData::compose(entry)));
            max = Some(entry.0);
        }
        let ep_type = self.ep_type();
        proof {
            assert(key@ =~= wire_entries(self@.keys));
        }
        WireTrack {
            ty,
            value: None,
            key,
            max,
            ep_type_pre: Some(ep_type.pre),
            ep_type_post: Some(ep_type.post),
        }
    }
}

impl KeySet {
    /// Encodes the track for the document format. Every track has a wire
    /// form.
    pub fn encode(&self) -> (wire: WireTrack)
        ensures
            wire@ == encode_spec(self@),
            self@.valid(),
    {
        match self {
            KeySet::Empty => WireTrack {
                ty: TRACK_EMPTY,
                value: None,
                key: Vec::new(),
                max: None,
                ep_type_pre: None,
                ep_type_post: None,
            },
            KeySet::Static(value) => WireTrack {
                ty: TRACK_STATIC,
                value: Some(*value),
                key: Vec::new(),
                max: None,
                ep_type_pre: None,
                ep_type_post: None,
            },
            KeySet::Linear(inner) => inner.to_wire(TRACK_LINEAR),
            KeySet::Hermite(inner) => inner.to_wire(TRACK_HERMITE),
            KeySet::Step(inner) => inner.to_wire(TRACK_STEP),
        }
    }
}

/// Once a prefix of a key list holds an entry with an unknown tag, the
/// first such entry of the whole list lies in that prefix.
pub proof fn lemma_first_unsupported_in_prefix(key: Seq<KeyframeInner>, n: int)
    requires
        0 <= n <= key.len(),
        first_unsupported(key.take(n)) is Some,
    ensures
        first_unsupported(key) == first_unsupported(key.take(n)),
    decreases key.len() - n,
{
    if n < key.len() {
        assert(key.take(n + 1).drop_last() == key.take(n));
        lemma_first_unsupported_in_prefix(key, n + 1);
    } else {
        assert(key.take(n) == key);
    }
}

/// A key list holds no entry with an unknown tag exactly when
/// `first_unsupported` finds none.
pub proof fn lemma_first_unsupported_none(key: Seq<KeyframeInner>)
    ensures
        first_unsupported(key) is None <==> forall|i: int|
            0 <= i < key.len() ==> (#[trigger] key[i]).ty <= SAMPLE_TAG_MAX,
    decreases key.len(),
{
    if key.len() > 0 {
        let front = key.drop_last();
        lemma_first_unsupported_none(front);
        if first_unsupported(key) is None {
            assert forall|i: int| 0 <= i < key.len() implies (#[trigger] key[i]).ty
                <= SAMPLE_TAG_MAX by {
                if i < front.len() {
                    assert(front[i] == key[i]);
                }
            }
        } else if first_unsupported(front) is Some {
            let i = choose|i: int| 0 <= i < front.len() && !((#[trigger] front[i]).ty <= SAMPLE_TAG_MAX);
            assert(key[i] == front[i]);
        } else {
            assert(key[key.len() - 1] == key.last());
        }
    }
}

/// The frame indices under which `samples_of` holds a sample are those of
/// the key list.
pub proof fn lemma_samples_of_dom<P: FrameInterpolation>(key: Seq<KeyframeInner>)
    ensures
        samples_of::<P>(key).dom().finite(),
        forall|k: u32| #[trigger]
            samples_of::<P>(key).contains_key(k) <==> entry_indices(key).contains(k),
    decreases key.len(),
{
    if key.len() > 0 {
        let front = key.drop_last();
        lemma_samples_of_dom::<P>(front);
        let last = key.last().data.index_spec();
        assert forall|k: u32| #[trigger]
            samples_of::<P>(key).contains_key(k) <==> entry_indices(key).contains(k) by {
            if entry_indices(key).contains(k) {
                let i = choose|i: int| 0 <= i < key.len() && entry_indices(key)[i] == k;
                if i < front.len() {
                    assert(entry_indices(front)[i] == k);
                }
            }
            if samples_of::<P>(key).contains_key(k) {
                if k == last {
                    assert(entry_indices(key)[key.len() - 1] == k);
                } else {
                    assert(samples_of::<P>(front).contains_key(k));
                    let i = choose|i: int| 0 <= i < front.len() && entry_indices(front)[i] == k;
                    assert(entry_indices(key)[i] == k);
                }
            }
        }
    }
}

impl<P: FrameInterpolation> KeySetInner<Frame<P>> {
    /// Rebuilds the samples of a track from its key list, reading each entry
    /// as kind `P`, and joins them with the continuation `ep_type`.
    ///
    /// Nothing is re-sorted and nothing is dropped: the list is refused with
    /// `UnsupportedVariant` where an entry carries an unknown tag, with
    /// `InvalidTrack` where it is empty, with `DuplicateFrame` where two
    /// entries share a frame index, and with `UnorderedFrames` where the
    /// frame indices do not ascend. The tag of an entry only has to be a
    /// known one; what the entry holds is read off its fields.
    pub fn convert(key: Vec<KeyframeInner>, ep_type: ExtendedPlayTypes) -> (r: Result<
        Self,
        CodecError,
    >)
        ensures
            view_result(r) == sampled_from_wire::<P>(key@, ep_type),
    {
        let n = key.len();
        for i in 0..n
            invariant
                n == key@.len(),
                first_unsupported(key@.take(i as int)) is None,
        {
            proof {
                assert(key@.take(i + 1).drop_last() == key@.take(i as int));
            }
            if key[i].ty > SAMPLE_TAG_MAX {
                proof {
                    lemma_first_unsupported_in_prefix(key@, i + 1);
                }
                return Err(CodecError::UnsupportedVariant(key[i].ty));
            }
        }
        proof {
            assert(key@.take(n as int) == key@);
        }
        if n == 0 {
            return Err(CodecError::InvalidTrack);
        }
        let ghost indices = entry_indices(key@);
        let mut keys: BTreeMap<u32, Frame<P>> = BTreeMap::new();
        let mut ascending = true;
        let mut previous: u32 = 0;
        for i in 0..n
            invariant
                0 < n == key@.len(),
                indices == entry_indices(key@),
                first_unsupported(key@) is None,
                keys@ == samples_of::<P>(key@.take(i as int)),
                !has_duplicates(indices.take(i as int)),
                ascending == strictly_ascending(indices.take(i as int)),
                i > 0 ==> previous == indices[i - 1],
        {
            let (index, frame) = key[i].data.decompose::<P>();
            proof {
                assert(key@.take(i + 1).drop_last() == key@.take(i as int));
                assert(entry_indices(key@.take(i as int)) == indices.take(i as int));
                lemma_samples_of_dom::<P>(key@.take(i as int));
                lemma_ascending_step(indices, i as int);
            }
            if i > 0 && index <= previous {
                ascending = false;
            }
            previous = index;
            if keys.insert(index, frame).is_some() {
                proof {
                    let before = indices.take(i as int);
                    let upto = indices.take(i + 1);
                    let j = choose|j: int| 0 <= j < before.len() && before[j] == index;
                    assert(upto[j] == upto[i as int]);
                    lemma_prefix_faults(indices, i + 1);
                }
                return Err(CodecError::DuplicateFrame);
            }
            proof {
                let before = indices.take(i as int);
                let upto = indices.take(i + 1);
                if has_duplicates(upto) {
                    let (a, b) = choose|a: int, b: int|
                        0 <= a < b < upto.len() && upto[a] == upto[b];
                    if b < i {
                        assert(before[a] == before[b]);
                    } else {
                        assert(before[a] == index);
                        assert(before.contains(index));
                    }
                }
            }
        }
        proof {
            assert(indices.take(n as int) == indices);
            assert(key@.take(n as int) == key@);
            lemma_samples_of_dom::<P>(key@);
        }
        if !ascending {
            return Err(CodecError::UnorderedFrames);
        }
        proof {
            assert(entry_indices(key@).contains(indices[0]));
            assert(keys@.dom().contains(indices[0]));
        }
        KeySetInner::new(keys, ep_type)
    }
}

impl KeySet {
    /// Decodes a track from the document format.
    ///
    /// Fields that the tag does not call for are ignored, `max` always: the
    /// last frame index is read off the samples themselves. A side of the
    /// continuation that is left out is `Off`.
    pub fn decode(wire: WireTrack) -> (r: Result<KeySet, CodecError>)
        ensures
            view_result(r) == decode_spec(wire@),
    {
        let ep_type = ExtendedPlayTypes {
            pre: match wire.ep_type_pre {
                Some(pre) => pre,
                None => ExtendedPlayType::Off,
            },
            post: match wire.ep_type_post {
                Some(post) => post,
                None => ExtendedPlayType::Off,
            },
        };
        if wire.ty == TRACK_EMPTY {
            Ok(KeySet::Empty)
        } else if wire.ty == TRACK_STATIC {
            match wire.value {
                Some(value) => Ok(KeySet::Static(value)),
                None => Err(CodecError::MissingValue),
            }
        } else if wire.ty == TRACK_LINEAR {
            match KeySetInner::<Frame<Linear>>::convert(wire.key, ep_type) {
                Ok(inner) => Ok(KeySet::Linear(inner)),
                Err(e) => Err(e),
            }
        } else if wire.ty == TRACK_HERMITE {
            match KeySetInner::<Frame<Hermite>>::convert(wire.key, ep_type) {
                Ok(inner) => Ok(KeySet::Hermite(inner)),
                Err(e) => Err(e),
            }
        } else if wire.ty == TRACK_STEP {
            match KeySetInner::<Frame<Step>>::convert(wire.key, ep_type) {
                Ok(inner) => Ok(KeySet::Step(inner)),
                Err(e) => Err(e),
            }
        } else {
            Err(CodecError::UnsupportedVariant(wire.ty))
        }
    }
}

} // verus!
