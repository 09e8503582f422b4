//! What holds of the codec as a whole.

use crate::ascending::{
    ascending_keys, has_duplicates, lemma_ascending_is_unique, lemma_keys_below, strictly_ascending,
};
use crate::codec::{
    decode_spec, encode_spec, first_unsupported, greatest_key, lemma_first_unsupported_none,
    lemma_samples_of_dom, sampled_from_wire, sampled_to_wire, samples_of, wire_entries, wire_ep_type,
    SAMPLE_TAG_MAX, TRACK_HERMITE, TRACK_LINEAR, TRACK_STEP,
};
use crate::error::CodecError;
use crate::keyframe::{
    ExtendedPlayTypes, Frame, FrameInterpolation, Hermite, Linear, Samples, Step, Track,
};
use crate::wire::{entry_indices, KeyframeData, KeyframeInner, WireTrackView};
use vstd::prelude::*;

verus! {

/// A sample that is stored and read back is the sample that was stored.
pub proof fn lemma_sample_round_trip<P: FrameInterpolation>(index: u32, frame: Frame<P>)
    ensures
        KeyframeData::compose_spec(index, frame).decompose_spec::<P>() == (index, frame),
{
    frame.interpolation.lemma_own_tangents();
}

/// No sample is stored under a greater tag than it needs: every entry that
/// reads back as the sample has a tag at least as great as the one chosen.
pub proof fn lemma_compose_is_minimal<P: FrameInterpolation>(
    index: u32,
    frame: Frame<P>,
    other: KeyframeData,
)
    requires
        other.decompose_spec::<P>() == (index, frame),
    ensures
        KeyframeData::compose_spec(index, frame).tag_spec() <= other.tag_spec(),
{
    P::lemma_tangents_kept_or_dropped(other.tangents_spec().0, other.tangents_spec().1);
}

/// A finite set with a member has a greatest member: it is in the set and no
/// member exceeds it.
pub proof fn lemma_greatest_key(keys: Set<u32>)
    requires
        keys.finite(),
        keys.len() > 0,
    ensures
        greatest_key(keys) is Some,
        keys.contains(greatest_key(keys)->Some_0),
        forall|k: u32| keys.contains(k) ==> k <= greatest_key(keys)->Some_0,
        ascending_keys(keys).len() > 0,
        keys.contains(ascending_keys(keys).first()),
        forall|k: u32| keys.contains(k) ==> ascending_keys(keys).first() <= k,
{
    let listing = ascending_keys(keys);
    lemma_keys_below(keys, 0x1_0000_0000);
    let member = keys.choose();
    assert(listing.contains(member));
    assert(listing.contains(listing.last()));
    assert(listing.contains(listing.first()));
    assert forall|k: u32| keys.contains(k) implies listing.first() <= k && k <= listing.last() by {
        assert(listing.contains(k));
        let i = choose|i: int| 0 <= i < listing.len() && listing[i] == k;
        if i < listing.len() - 1 {
            assert(listing[i] < listing[listing.len() - 1]);
        }
        if 0 < i {
            assert(listing[0] < listing[i]);
        }
    }
}

/// In a key list without repeated frame indices, the sample read under the
/// frame index of an entry is the one that the entry holds.
pub proof fn lemma_samples_of_at<P: FrameInterpolation>(key: Seq<KeyframeInner>, i: int)
    requires
        0 <= i < key.len(),
        !has_duplicates(entry_indices(key)),
    ensures
        samples_of::<P>(key).contains_key(key[i].data.index_spec()),
        samples_of::<P>(key)[key[i].data.index_spec()] == key[i].data.decompose_spec::<P>().1,
    decreases key.len(),
{
    let indices = entry_indices(key);
    let front = key.drop_last();
    if i < key.len() - 1 {
        assert(indices[i] != indices[key.len() - 1]);
        if has_duplicates(entry_indices(front)) {
            let (a, b) = choose|a: int, b: int|
                0 <= a < b < entry_indices(front).len() && entry_indices(front)[a] == entry_indices(
                    front,
                )[b];
            assert(indices[a] == indices[b]);
        }
        lemma_samples_of_at::<P>(front, i);
    }
}

/// The key list of an encoded track lists the frame indices of the track in
/// ascending order, holds no unknown tag, and reads back as the samples of
/// the track.
pub proof fn lemma_wire_entries<P: FrameInterpolation>(keys: Map<u32, Frame<P>>)
    requires
        keys.dom().finite(),
    ensures
        entry_indices(wire_entries(keys)) == ascending_keys(keys.dom()),
        strictly_ascending(entry_indices(wire_entries(keys))),
        !has_duplicates(entry_indices(wire_entries(keys))),
        first_unsupported(wire_entries(keys)) is None,
        samples_of::<P>(wire_entries(keys)) == keys,
{
    let key = wire_entries(keys);
    let listing = ascending_keys(keys.dom());
    lemma_keys_below(keys.dom(), 0x1_0000_0000);
    assert(entry_indices(key) =~= listing);
    lemma_first_unsupported_none(key);
    lemma_samples_of_dom::<P>(key);
    let read = samples_of::<P>(key);
    assert forall|k: u32| read.contains_key(k) <==> keys.contains_key(k) by {
        assert(listing.contains(k) <==> keys.dom().contains(k));
    }
    assert forall|k: u32| #[trigger] read.contains_key(k) implies read[k] == keys[k] by {
        assert(listing.contains(k));
        let i = choose|i: int| 0 <= i < listing.len() && listing[i] == k;
        lemma_samples_of_at::<P>(key, i);
        lemma_sample_round_trip::<P>(k, keys[k]);
    }
    assert(read =~= keys);
}

/// The samples of a sampled track survive encoding and decoding unchanged.
pub proof fn lemma_sampled_round_trip<P: FrameInterpolation>(ty: u8, samples: Samples<Frame<P>>)
    requires
        samples.valid(),
    ensures
        sampled_from_wire::<P>(
            sampled_to_wire(ty, samples).key,
            wire_ep_type(sampled_to_wire(ty, samples)),
        ) == Ok::<Samples<Frame<P>>, CodecError>(samples),
{
    lemma_wire_entries(samples.keys);
    lemma_greatest_key(samples.keys.dom());
}

/// Round trip: decoding what a track encodes to gives the track back.
pub proof fn lemma_round_trip(track: Track)
    requires
        track.valid(),
    ensures
        decode_spec(encode_spec(track)) == Ok::<Track, CodecError>(track),
{
    match track {
        Track::Empty => {},
        Track::Constant(_) => {},
        Track::Linear(samples) => {
            lemma_sampled_round_trip(TRACK_LINEAR, samples);
        },
        Track::Hermite(samples) => {
            lemma_sampled_round_trip(TRACK_HERMITE, samples);
        },
        Track::Step(samples) => {
            lemma_sampled_round_trip(TRACK_STEP, samples);
        },
    }
}

/// Encoding is stable: a track that went through the wire form and back
/// encodes to the very same wire form.
pub proof fn lemma_encode_is_stable(track: Track)
    requires
        track.valid(),
    ensures
        decode_spec(encode_spec(track)) is Ok,
        encode_spec(decode_spec(encode_spec(track))->Ok_0) == encode_spec(track),
{
    lemma_round_trip(track);
}

/// Decoding keeps the order of the key list: the samples of the decoded
/// track, taken in ascending order of frame index, are the entries of the
/// list one by one, and encoding them again lists the same frame indices in
/// the same order.
pub proof fn lemma_sampled_order<P: FrameInterpolation>(
    key: Seq<KeyframeInner>,
    ep_type: ExtendedPlayTypes,
)
    requires
        sampled_from_wire::<P>(key, ep_type) is Ok,
    ensures
        strictly_ascending(entry_indices(key)),
        sampled_from_wire::<P>(key, ep_type)->Ok_0.valid(),
        sampled_from_wire::<P>(key, ep_type)->Ok_0.entries() == key.map_values(
            |entry: KeyframeInner| entry.data.decompose_spec::<P>(),
        ),
        entry_indices(wire_entries(sampled_from_wire::<P>(key, ep_type)->Ok_0.keys))
            == entry_indices(key),
{
    let samples = sampled_from_wire::<P>(key, ep_type)->Ok_0;
    let indices = entry_indices(key);
    lemma_samples_of_dom::<P>(key);
    assert forall|k: u32| indices.contains(k) <==> samples.keys.dom().contains(k) by {
        assert(samples.keys.contains_key(k) <==> indices.contains(k));
    }
    lemma_ascending_is_unique(samples.keys.dom(), indices);
    assert(samples.keys.dom().contains(indices[0])) by {
        assert(indices.contains(indices[0]));
    }
    let read = key.map_values(|entry: KeyframeInner| entry.data.decompose_spec::<P>());
    assert forall|i: int| 0 <= i < key.len() implies #[trigger] samples.entries()[i] == read[i] by {
        lemma_samples_of_at::<P>(key, i);
    }
    assert(samples.entries() =~= read);
    lemma_wire_entries(samples.keys);
}

/// Order preservation: a sampled wire track that decodes has its frame
/// indices in ascending order, and the decoded track encodes to a key list
/// with the same frame indices in the same order.
pub proof fn lemma_order_is_preserved(wire: WireTrackView)
    requires
        decode_spec(wire) is Ok,
        decode_spec(wire)->Ok_0.is_sampled(),
    ensures
        decode_spec(wire)->Ok_0.valid(),
        strictly_ascending(entry_indices(wire.key)),
        entry_indices(encode_spec(decode_spec(wire)->Ok_0).key) == entry_indices(wire.key),
{
    let ep_type = wire_ep_type(wire);
    if wire.ty == TRACK_LINEAR {
        lemma_sampled_order::<Linear>(wire.key, ep_type);
    } else if wire.ty == TRACK_HERMITE {
        lemma_sampled_order::<Hermite>(wire.key, ep_type);
    } else {
        lemma_sampled_order::<Step>(wire.key, ep_type);
    }
}

/// The unknown sample tag that decoding reports is that of the first entry
/// with such a tag: every entry before it carries a known one.
pub proof fn lemma_first_unsupported_is_first(key: Seq<KeyframeInner>)
    requires
        first_unsupported(key) is Some,
    ensures
        first_unsupported(key)->Some_0 > SAMPLE_TAG_MAX,
        exists|i: int|
            {
                &&& 0 <= i < key.len()
                &&& (#[trigger] key[i]).ty == first_unsupported(key)->Some_0
                &&& forall|j: int| 0 <= j < i ==> (#[trigger] key[j]).ty <= SAMPLE_TAG_MAX
            },
    decreases key.len(),
{
    let front = key.drop_last();
    if first_unsupported(front) is Some {
        lemma_first_unsupported_is_first(front);
        let i = choose|i: int|
            {
                &&& 0 <= i < front.len()
                &&& (#[trigger] front[i]).ty == first_unsupported(front)->Some_0
                &&& forall|j: int| 0 <= j < i ==> (#[trigger] front[j]).ty <= SAMPLE_TAG_MAX
            };
        assert(key[i] == front[i]);
        assert forall|j: int| 0 <= j < i implies (#[trigger] key[j]).ty <= SAMPLE_TAG_MAX by {
            assert(key[j] == front[j]);
        }
    } else {
        lemma_first_unsupported_none(front);
        let i = key.len() - 1;
        assert(key[i] == key.last());
        assert forall|j: int| 0 <= j < i implies (#[trigger] key[j]).ty <= SAMPLE_TAG_MAX by {
            assert(key[j] == front[j]);
        }
    }
}

/// Advisory maximum, on decoding: whatever `max` a wire track announces,
/// it decodes to the same result.
pub proof fn lemma_max_is_advisory(wire: WireTrackView, max: Option<u32>)
    ensures
        decode_spec(WireTrackView { max, ..wire }) == decode_spec(wire),
{
}

/// Advisory maximum, on encoding: the `max` of an encoded sampled track is
/// its greatest frame index, and a track without samples announces none.
pub proof fn lemma_encoded_max(track: Track)
    requires
        track.valid(),
    ensures
        track.is_sampled() ==> encode_spec(track).max is Some && track.frames().contains(
            encode_spec(track).max->Some_0,
        ),
        forall|k: u32| track.frames().contains(k) ==> k <= encode_spec(track).max->Some_0,
        !track.is_sampled() ==> encode_spec(track).max is None,
{
    if track.is_sampled() {
        lemma_greatest_key(track.frames());
    }
}

/// The extent of a sampled track is made of its smallest and its greatest
/// frame index; other tracks have none.
pub proof fn lemma_extent(track: Track)
    requires
        track.valid(),
    ensures
        track.extent() is Some <==> track.is_sampled(),
        track.extent() matches Some((first, last)) ==> {
            &&& track.frames().contains(first)
            &&& track.frames().contains(last)
            &&& forall|k: u32| track.frames().contains(k) ==> first <= k <= last
        },
{
    if track.is_sampled() {
        lemma_greatest_key(track.frames());
    }
}

} // verus!
