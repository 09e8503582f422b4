//! The wire form of a track: a tagged record whose samples each take the
//! fewest fields that can hold them.

use crate::keyframe::{ExtendedPlayType, Frame, FrameInterpolation};
use crate::scalar::Scalar;
use vstd::prelude::*;

verus! {

/// One sample as it is stored. The variant says which fields are present; the
/// frame index always comes first.
///
/// | Variant | Value | Tangents        |
/// |---------|-------|-----------------|
/// | `Type0` | zero  | both zero       |
/// | `Type1` | given | both zero       |
/// | `Type2` | given | equal, given    |
/// | `Type3` | given | each given      |
#[derive(Debug, Clone, Copy, PartialEq, Eq, Structural)]
pub enum KeyframeData {
    Type0(u32),
    Type1(u32, Scalar),
    Type2(u32, Scalar, Scalar),
    Type3(u32, Scalar, Scalar, Scalar),
}

impl KeyframeData {
    /// The frame index of the sample.
    pub open spec fn index_spec(self) -> u32 {
        match self {
            KeyframeData::Type0(i) => i,
            KeyframeData::Type1(i, _) => i,
            KeyframeData::Type2(i, _, _) => i,
            KeyframeData::Type3(i, _, _, _) => i,
        }
    }

    /// The tag under which the variant is stored.
    pub open spec fn tag_spec(self) -> u8 {
        match self {
            KeyframeData::Type0(_) => 0,
            KeyframeData::Type1(_, _) => 1,
            KeyframeData::Type2(_, _, _) => 2,
            KeyframeData::Type3(_, _, _, _) => 3,
        }
    }

    /// The value that the entry stores or implies.
    pub open spec fn value_spec(self) -> Scalar {
        match self {
            KeyframeData::Type0(_) => Scalar::zero_spec(),
            KeyframeData::Type1(_, v) => v,
            KeyframeData::Type2(_, v, _) => v,
            KeyframeData::Type3(_, v, _, _) => v,
        }
    }

    /// The pair of tangents that the entry stores or implies.
    pub open spec fn tangents_spec(self) -> (Scalar, Scalar) {
        match self {
            KeyframeData::Type0(_) => (Scalar::zero_spec(), Scalar::zero_spec()),
            KeyframeData::Type1(_, _) => (Scalar::zero_spec(), Scalar::zero_spec()),
            KeyframeData::Type2(_, _, t) => (t, t),
            KeyframeData::Type3(_, _, t1, t2) => (t1, t2),
        }
    }

    /// The entry that stores a value and a pair of tangents at `index` in the
    /// fewest fields.
    pub open spec fn minimal(index: u32, value: Scalar, tangents: (Scalar, Scalar)) -> KeyframeData {
        if tangents.0 != tangents.1 {
            KeyframeData::Type3(index, value, tangents.0, tangents.1)
        } else if tangents.0 != Scalar::zero_spec() {
            KeyframeData::Type2(index, value, tangents.0)
        } else if value != Scalar::zero_spec() {
            KeyframeData::Type1(index, value)
        } else {
            KeyframeData::Type0(index)
        }
    }

    /// The entry that `compose` gives for a sample at `index`.
    pub open spec fn compose_spec<P: FrameInterpolation>(index: u32, frame: Frame<P>) -> KeyframeData {
        Self::minimal(index, frame.value, frame.interpolation.tangents())
    }

    /// The frame index and the sample that `decompose` reads from an entry.
    pub open spec fn decompose_spec<P: FrameInterpolation>(self) -> (u32, Frame<P>) {
        (
            self.index_spec(),
            Frame {
                value: self.value_spec(),
                interpolation: P::with_tangents(self.tangents_spec().0, self.tangents_spec().1),
            },
        )
    }

    pub fn index(&self) -> (i: u32)
        ensures
            i == self.index_spec(),
    {
        match self {
            KeyframeData::Type0(i) => *i,
            KeyframeData::Type1(i, _) => *i,
            KeyframeData::Type2(i, _, _) => *i,
            KeyframeData::Type3(i, _, _, _) => *i,
        }
    }

    pub fn tag(&self) -> (t: u8)
        ensures
            t == self.tag_spec(),
    {
        match self {
            KeyframeData::Type0(_) => 0,
            KeyframeData::Type1(_, _) => 1,
            KeyframeData::Type2(_, _, _) => 2,
            KeyframeData::Type3(_, _, _, _) => 3,
        }
    }

    /// Stores a sample in the fewest fields that hold it: the index alone
    /// where value and tangents are all zero, the value too where only the
    /// tangents are zero, one tangent where the two are equal, and both
    /// otherwise.
    pub fn compose<P: FrameInterpolation>(entry: (u32, Frame<P>)) -> (data: Self)
        ensures
            data == Self::compose_spec(entry.0, entry.1),
    {
        let (index, frame) = entry;
        let (t1, t2) = frame.interpolation.into_tangents();
        if t1 == t2 {
            if t1.is_zero() {
                if frame.value.is_zero() {
                    KeyframeData::Type0(index)
                } else {
                    KeyframeData::Type1(index, frame.value)
                }
            } else {
                KeyframeData::Type2(index, frame.value, t1)
            }
        } else {
            KeyframeData::Type3(index, frame.value, t1, t2)
        }
    }

    /// Reads an entry back as a frame index and a sample of kind `P`. Fields
    /// that the entry leaves out are zero; a single tangent counts for both
    /// sides.
    pub fn decompose<P: FrameInterpolation>(self) -> (entry: (u32, Frame<P>))
        ensures
            entry == self.decompose_spec::<P>(),
    {
        match self {
            KeyframeData::Type0(index) => (
                index,
                Frame { value: Scalar::zero(), interpolation: P::from_tangent(Scalar::zero()) },
            ),
            KeyframeData::Type1(index, value) => (
                index,
                Frame { value, interpolation: P::from_tangent(Scalar::zero()) },
            ),
            KeyframeData::Type2(index, value, tangent) => (
                index,
                Frame { value, interpolation: P::from_tangent(tangent) },
            ),
            KeyframeData::Type3(index, value, pre, post) => (
                index,
                Frame { value, interpolation: P::from_tangents(pre, post) },
            ),
        }
    }
}

/// An entry of a key list: the sample's fields under the tag that announces
/// them.
#[derive(Debug, Clone, Copy, PartialEq, Eq, Structural)]
pub struct KeyframeInner {
    pub ty: u8,
    pub data: KeyframeData,
}

impl KeyframeInner {
    /// The entry that announces `data` under its own tag.
    pub open spec fn tagged(data: KeyframeData) -> KeyframeInner {
        KeyframeInner { ty: data.tag_spec(), data }
    }
}

impl vstd::std_specs::convert::FromSpecImpl<KeyframeData> for KeyframeInner {
    open spec fn obeys_from_spec() -> bool {
        true
    }

    open spec fn from_spec(data: KeyframeData) -> Self {
        KeyframeInner::tagged(data)
    }
}

impl From<KeyframeData> for KeyframeInner {
    fn from(data: KeyframeData) -> (entry: Self) {
        KeyframeInner { ty: data.tag(), data }
    }
}

/// The frame indices of a key list, in the order of the list.
pub open spec fn entry_indices(key: Seq<KeyframeInner>) -> Seq<u32> {
    key.map_values(|entry: KeyframeInner| entry.data.index_spec())
}

/// A track as it is exchanged with the document format.
///
/// | Field                         | Meaning                                      |
/// |-------------------------------|----------------------------------------------|
/// | `ty`                          | 0 empty, 1 constant, 2 linear, 3 Hermite, 4 step |
/// | `value`                       | the value of a constant track                |
/// | `key`                         | the samples of a sampled track, in order     |
/// | `max`                         | the last frame index, for the reader's convenience |
/// | `ep_type_pre`, `ep_type_post` | the continuation on either side              |
#[derive(Debug, PartialEq, Eq)]
pub struct WireTrack {
    pub ty: u8,
    pub value: Option<Scalar>,
    pub key: Vec<KeyframeInner>,
    pub max: Option<u32>,
    pub ep_type_pre: Option<ExtendedPlayType>,
    pub ep_type_post: Option<ExtendedPlayType>,
}

impl Clone for WireTrack {
    fn clone(&self) -> (r: Self)
        ensures
            r@ == self@,
    {
        let key = self.key.clone();
        proof {
            assert(key@ =~= self.key@);
        }
        WireTrack {
            ty: self.ty,
            value: self.value,
            key,
            max: self.max,
            ep_type_pre: self.ep_type_pre,
            ep_type_post: self.ep_type_post,
        }
    }
}

/// The mathematical content of a wire track.
pub struct WireTrackView {
    pub ty: u8,
    pub value: Option<Scalar>,
    pub key: Seq<KeyframeInner>,
    pub max: Option<u32>,
    pub ep_type_pre: Option<ExtendedPlayType>,
    pub ep_type_post: Option<ExtendedPlayType>,
}

impl View for WireTrack {
    type V = WireTrackView;

    open spec fn view(&self) -> WireTrackView {
        WireTrackView {
            ty: self.ty,
            value: self.value,
            key: self.key@,
            max: self.max,
            ep_type_pre: self.ep_type_pre,
            ep_type_post: self.ep_type_post,
        }
    }
}

} // verus!
