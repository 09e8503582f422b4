//! The track model: samples, their interpolation kinds, and tracks.

use crate::ascending::{ascending_keys, lemma_iteration_order};
use crate::error::CodecError;
use crate::scalar::Scalar;
use std::collections::BTreeMap;
use vstd::prelude::*;
use vstd::std_specs::btree::increasing_seq;
use vstd::std_specs::iter::IteratorSpec;

verus! {

/// How a track is continued outside the range covered by its samples.
#[derive(Debug, Clone, Copy, PartialEq, Eq, PartialOrd, Ord, Structural)]
pub enum ExtendedPlayType {
    Off,
    Linear,
    Cycle,
    CycleOffset,
}

impl Default for ExtendedPlayType {
    fn default() -> (r: Self)
        ensures
            r == ExtendedPlayType::Off,
    {
        ExtendedPlayType::Off
    }
}

/// The continuation of a track before its first and after its last sample.
#[derive(Debug, Clone, Copy, PartialEq, Eq, Structural)]
pub struct ExtendedPlayTypes {
    pub pre: ExtendedPlayType,
    pub post: ExtendedPlayType,
}

impl Default for ExtendedPlayTypes {
    fn default() -> (r: Self)
        ensures
            r == (ExtendedPlayTypes { pre: ExtendedPlayType::Off, post: ExtendedPlayType::Off }),
    {
        ExtendedPlayTypes { pre: ExtendedPlayType::Off, post: ExtendedPlayType::Off }
    }
}

/// What every interpolation kind can do: give the pair of tangents it stands
/// for, and be rebuilt from such a pair.
pub trait FrameInterpolation: Sized + Copy {
    /// The tangents entering and leaving a sample of this kind.
    spec fn tangents(self) -> (Scalar, Scalar);

    /// The kind that a pair of tangents is read as.
    spec fn with_tangents(pre: Scalar, post: Scalar) -> Self;

    /// Reading a kind's own tangents gives the kind back.
    proof fn lemma_own_tangents(self)
        ensures
            Self::with_tangents(self.tangents().0, self.tangents().1) == self,
    ;

    /// A kind either keeps the tangents it is read from or has none: it
    /// never makes up tangents of its own.
    proof fn lemma_tangents_kept_or_dropped(pre: Scalar, post: Scalar)
        ensures
            Self::with_tangents(pre, post).tangents() == (pre, post) || Self::with_tangents(
                pre,
                post,
            ).tangents() == (Scalar::zero_spec(), Scalar::zero_spec()),
    ;

    fn into_tangents(self) -> (t: (Scalar, Scalar))
        ensures
            t == self.tangents(),
    ;

    fn from_tangents(pre: Scalar, post: Scalar) -> (p: Self)
        ensures
            p == Self::with_tangents(pre, post),
    ;

    /// The kind whose two tangents are both `tangent`.
    fn from_tangent(tangent: Scalar) -> (p: Self)
        ensures
            p == Self::with_tangents(tangent, tangent),
    ;
}

/// Straight segments between samples: no tangent is stored, both are zero.
#[derive(Debug, Clone, Copy, PartialEq, Eq, Structural)]
pub struct Linear;

impl FrameInterpolation for Linear {
    open spec fn tangents(self) -> (Scalar, Scalar) {
        (Scalar::zero_spec(), Scalar::zero_spec())
    }

    open spec fn with_tangents(pre: Scalar, post: Scalar) -> Self {
        Linear
    }

    proof fn lemma_own_tangents(self) {
    }

    proof fn lemma_tangents_kept_or_dropped(pre: Scalar, post: Scalar) {
    }

    fn into_tangents(self) -> (t: (Scalar, Scalar)) {
        (Scalar::zero(), Scalar::zero())
    }

    fn from_tangents(pre: Scalar, post: Scalar) -> (p: Self) {
        Linear
    }

    fn from_tangent(tangent: Scalar) -> (p: Self) {
        Linear
    }
}

impl Default for Linear {
    fn default() -> (r: Self)
        ensures
            r == Linear,
    {
        Linear
    }
}

/// The value holds until the next sample: no tangent is stored, both are zero.
#[derive(Debug, Clone, Copy, PartialEq, Eq, Structural)]
pub struct Step;

impl FrameInterpolation for Step {
    open spec fn tangents(self) -> (Scalar, Scalar) {
        (Scalar::zero_spec(), Scalar::zero_spec())
    }

    open spec fn with_tangents(pre: Scalar, post: Scalar) -> Self {
        Step
    }

    proof fn lemma_own_tangents(self) {
    }

    proof fn lemma_tangents_kept_or_dropped(pre: Scalar, post: Scalar) {
    }

    fn into_tangents(self) -> (t: (Scalar, Scalar)) {
        (Scalar::zero(), Scalar::zero())
    }

    fn from_tangents(pre: Scalar, post: Scalar) -> (p: Self) {
        Step
    }

    fn from_tangent(tangent: Scalar) -> (p: Self) {
        Step
    }
}

impl Default for Step {
    fn default() -> (r: Self)
        ensures
            r == Step,
    {
        Step
    }
}

/// A curve with its own tangent on each side of the sample.
#[derive(Debug, Clone, Copy, PartialEq, Eq, Structural)]
pub struct Hermite {
    pub pre: Scalar,
    pub post: Scalar,
}

impl FrameInterpolation for Hermite {
    open spec fn tangents(self) -> (Scalar, Scalar) {
        (self.pre, self.post)
    }

    open spec fn with_tangents(pre: Scalar, post: Scalar) -> Self {
        Hermite { pre, post }
    }

    proof fn lemma_own_tangents(self) {
    }

    proof fn lemma_tangents_kept_or_dropped(pre: Scalar, post: Scalar) {
    }

    fn into_tangents(self) -> (t: (Scalar, Scalar)) {
        (self.pre, self.post)
    }

    fn from_tangents(pre: Scalar, post: Scalar) -> (p: Self) {
        Hermite { pre, post }
    }

    fn from_tangent(tangent: Scalar) -> (p: Self) {
        Hermite { pre: tangent, post: tangent }
    }
}

impl Default for Hermite {
    fn default() -> (r: Self)
        ensures
            r == (Hermite { pre: Scalar::zero_spec(), post: Scalar::zero_spec() }),
    {
        Hermite { pre: Scalar::zero(), post: Scalar::zero() }
    }
}

/// One sample of a track: its value and how the curve passes through it.
#[derive(Debug, PartialEq, Eq)]
pub struct Frame<P> {
    pub value: Scalar,
    pub interpolation: P,
}

impl<P: Copy> Clone for Frame<P> {
    fn clone(&self) -> (r: Self)
        ensures
            r == *self,
    {
        Frame { value: self.value, interpolation: self.interpolation }
    }
}

impl<P: Copy> Copy for Frame<P> {

}

/// The mathematical content of a sampled track: a sample for each frame
/// index that has one, and the continuation on both sides.
pub struct Samples<K> {
    pub keys: Map<u32, K>,
    pub ep_type: ExtendedPlayTypes,
}

impl<K> Samples<K> {
    /// A sampled track holds at least one sample, and finitely many.
    pub open spec fn valid(self) -> bool {
        self.keys.dom().finite() && self.keys.dom().len() > 0
    }

    /// The samples with their frame indices, in ascending order of index.
    pub open spec fn entries(self) -> Seq<(u32, K)> {
        ascending_keys(self.keys.dom()).map_values(|k: u32| (k, self.keys[k]))
    }

    /// The smallest and the greatest frame index that carry a sample.
    pub open spec fn extent(self) -> (u32, u32) {
        (ascending_keys(self.keys.dom()).first(), ascending_keys(self.keys.dom()).last())
    }
}

/// The samples of a track, each under its frame index, with the
/// continuation before the first and after the last of them. There is
/// always at least one sample.
#[derive(Debug, PartialEq)]
pub struct KeySetInner<K> {
    keys: BTreeMap<u32, K>,
    ep_type: ExtendedPlayTypes,
}

impl<K> View for KeySetInner<K> {
    type V = Samples<K>;

    closed spec fn view(&self) -> Samples<K> {
        Samples { keys: self.keys@, ep_type: self.ep_type }
    }
}

impl<K: Clone> Clone for KeySetInner<K> {
    fn clone(&self) -> (r: Self)
        ensures
            r@ == self@,
    {
        proof {
            use_type_invariant(self);
        }
        KeySetInner { keys: self.keys.clone(), ep_type: self.ep_type }
    }
}

impl<K> KeySetInner<K> {
    #[verifier::type_invariant]
    spec fn holds_a_sample(self) -> bool {
        self.keys@.dom().len() > 0
    }

    /// Builds a sampled track from an ordered map of samples. A map without
    /// samples is refused: a track without data is `KeySet::Empty`.
    pub fn new(keys: BTreeMap<u32, K>, ep_type: ExtendedPlayTypes) -> (r: Result<Self, CodecError>)
        ensures
            keys@.dom().len() == 0 ==> r == Err::<Self, CodecError>(CodecError::InvalidTrack),
            keys@.dom().len() > 0 ==> r is Ok && r->Ok_0@ == (Samples { keys: keys@, ep_type }),
    {
        if keys.is_empty() {
            Err(CodecError::InvalidTrack)
        } else {
            assert(keys@.dom().len() > 0) by {
                if keys@.dom().len() == 0 {
                    assert(keys@.dom() =~= Set::empty());
                    assert(keys@ =~= Map::empty());
                }
            }
            Ok(KeySetInner { keys, ep_type })
        }
    }

    /// The samples, ordered by frame index.
    pub fn keys(&self) -> (keys: &BTreeMap<u32, K>)
        ensures
            keys@ == self@.keys,
            self@.valid(),
    {
        proof {
            use_type_invariant(self);
        }
        &self.keys
    }

    /// The continuation before the first and after the last sample.
    pub fn ep_type(&self) -> (ep_type: ExtendedPlayTypes)
        ensures
            ep_type == self@.ep_type,
    {
        self.ep_type
    }
}

impl<K: Copy> KeySetInner<K> {
    /// The samples with their frame indices, in ascending order of index.
    pub fn entries(&self) -> (entries: Vec<(u32, K)>)
        ensures
            entries@ == self@.entries(),
            self@.valid(),
    {
        let mut entries: Vec<(u32, K)> = Vec::new();
        let ghost walk = self.keys.iter().remaining();
        for kv in it: self.keys.iter()
            invariant
                it.seq() == walk,
                entries@.len() == it.index(),
                forall|i: int|
                    0 <= i < entries@.len() ==> entries@[i] == (*(#[trigger] walk[i]).0, *walk[i].1),
                forall|i: int|
                    0 <= i < walk.len() ==> self.keys@.contains_key(*(#[trigger] walk[i]).0)
                        && self.keys@[*walk[i].0] == *walk[i].1,
                forall|k: u32| #[trigger]
                    self.keys@.contains_key(k) ==> walk.contains((&k, &self.keys@[k])),
                increasing_seq(walk.map_values(|kv: (&u32, &K)| *kv.0)),
        {
            entries.push((*kv.0, *kv.1));
        }
        proof {
            use_type_invariant(self);
            lemma_iteration_order(self.keys@, walk);
            assert(entries@ =~= self@.entries());
        }
        entries
    }
}

impl<K> KeySetInner<K> {
    /// The first and the last frame index that carry a sample.
    pub fn extent(&self) -> (extent: (u32, u32))
        ensures
            extent == self@.extent(),
            self@.valid(),
    {
        let mut first: u32 = 0;
        let mut last: u32 = 0;
        let mut seen = false;
        let ghost walk = self.keys.iter().remaining();
        for kv in it: self.keys.iter()
            invariant
                it.seq() == walk,
                seen == (it.index() > 0),
                seen ==> first == *walk[0].0 && last == *walk[it.index() - 1].0,
                walk.len() == self.keys@.dom().len(),
                forall|i: int|
                    0 <= i < walk.len() ==> self.keys@.contains_key(*(#[trigger] walk[i]).0),
                forall|k: u32| #[trigger]
                    self.keys@.contains_key(k) ==> walk.contains((&k, &self.keys@[k])),
                increasing_seq(walk.map_values(|kv: (&u32, &K)| *kv.0)),
        {
            if !seen {
                first = *kv.0;
                seen = true;
            }
            last = *kv.0;
        }
        proof {
            use_type_invariant(self);
            lemma_iteration_order(self.keys@, walk);
        }
        (first, last)
    }
}

/// The mathematical content of a track.
pub enum Track {
    /// No data: the track resolves to zero.
    Empty,
    /// One value, held for the whole track.
    Constant(Scalar),
    /// Samples joined by straight segments.
    Linear(Samples<Frame<Linear>>),
    /// Samples joined by curves with a tangent on each side.
    Hermite(Samples<Frame<Hermite>>),
    /// Samples whose value holds until the next one.
    Step(Samples<Frame<Step>>),
}

impl Track {
    /// Every sampled track holds at least one sample, and finitely many.
    pub open spec fn valid(self) -> bool {
        match self {
            Track::Empty => true,
            Track::Constant(_) => true,
            Track::Linear(samples) => samples.valid(),
            Track::Hermite(samples) => samples.valid(),
            Track::Step(samples) => samples.valid(),
        }
    }

    /// The frame indices that carry a sample.
    pub open spec fn frames(self) -> Set<u32> {
        match self {
            Track::Empty => Set::empty(),
            Track::Constant(_) => Set::empty(),
            Track::Linear(samples) => samples.keys.dom(),
            Track::Hermite(samples) => samples.keys.dom(),
            Track::Step(samples) => samples.keys.dom(),
        }
    }

    /// Whether the track is made of samples.
    pub open spec fn is_sampled(self) -> bool {
        self is Linear || self is Hermite || self is Step
    }

    /// The first and the last frame index of a sampled track; a track
    /// without samples has no extent.
    pub open spec fn extent(self) -> Option<(u32, u32)> {
        match self {
            Track::Empty => None,
            Track::Constant(_) => None,
            Track::Linear(samples) => Some(samples.extent()),
            Track::Hermite(samples) => Some(samples.extent()),
            Track::Step(samples) => Some(samples.extent()),
        }
    }
}

/// An animated property over frame-indexed time.
#[derive(Debug, PartialEq)]
pub enum KeySet {
    /// No data: the value is zero throughout.
    Empty,
    /// The value is the given one throughout.
    Static(Scalar),
    /// Samples joined by straight segments.
    Linear(KeySetInner<Frame<Linear>>),
    /// Samples joined by curves with a tangent on each side.
    Hermite(KeySetInner<Frame<Hermite>>),
    /// Samples whose value holds until the next one.
    Step(KeySetInner<Frame<Step>>),
}

impl View for KeySet {
    type V = Track;

    open spec fn view(&self) -> Track {
        match self {
            KeySet::Empty => Track::Empty,
            KeySet::Static(value) => Track::Constant(*value),
            KeySet::Linear(inner) => Track::Linear(inner@),
            KeySet::Hermite(inner) => Track::Hermite(inner@),
            KeySet::Step(inner) => Track::Step(inner@),
        }
    }
}

impl Clone for KeySet {
    fn clone(&self) -> (r: Self)
        ensures
            r@ == self@,
    {
        match self {
            KeySet::Empty => KeySet::Empty,
            KeySet::Static(value) => KeySet::Static(*value),
            KeySet::Linear(inner) => KeySet::Linear(inner.clone()),
            KeySet::Hermite(inner) => KeySet::Hermite(inner.clone()),
            KeySet::Step(inner) => KeySet::Step(inner.clone()),
        }
    }
}

impl Default for KeySet {
    fn default() -> (r: Self)
        ensures
            r@ == Track::Empty,
    {
        KeySet::Empty
    }
}

impl KeySet {
    /// Whether an announced last frame index contradicts the track: the
    /// track has samples and its last frame index is another one. Such an
    /// announcement is harmless, but a caller may want to report it.
    pub fn max_disagrees(&self, max: Option<u32>) -> (r: bool)
        ensures
            r == (self@.extent() matches Some((_, last)) && max matches Some(m) && m != last),
    {
        match (self.extent(), max) {
            (Some((_, last)), Some(m)) => m != last,
            _ => false,
        }
    }

    /// Whether the track is bounded, and if so the first and the last frame
    /// index that carry a sample. Only a sampled track is bounded.
    pub fn extent(&self) -> (extent: Option<(u32, u32)>)
        ensures
            extent == self@.extent(),
            self@.valid(),
    {
        match self {
            KeySet::Empty => None,
            KeySet::Static(_) => None,
            KeySet::Linear(inner) => Some(inner.extent()),
            KeySet::Hermite(inner) => Some(inner.extent()),
            KeySet::Step(inner) => Some(inner.extent()),
        }
    }
}

} // verus!
