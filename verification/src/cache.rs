//! The curve asset cache: a keyed, reference-counted store that prevents
//! duplicate baking of identical source curves and enforces one writer per
//! key. Keys are opaque strings; the store is partitioned by attribute kind
//! since keys need not be unique across kinds.

use vstd::prelude::*;
use std::rc::Rc;
use std::string::String;
use crate::curve::{curve_wf, CurveView, FrameCurve, Interpolation};
use crate::errors::AnimError;
use crate::ingest::{
    attribute_of, bake_channel, baked_frames, stream_ok, AttributeKind, ChannelKind,
};
use crate::value::{value_in_range, AnimValue};

verus! {

/// One cached curve under its key.
pub struct CacheEntry {
    pub key: String,
    pub curve: Rc<FrameCurve>,
}

/// Mathematical image of one partition: the association list folded into a
/// map from key characters to curve content.
pub open spec fn entries_map(s: Seq<CacheEntry>) -> Map<Seq<char>, CurveView>
    decreases s.len(),
{
    if s.len() == 0 {
        Map::empty()
    } else {
        entries_map(s.drop_last()).insert(s.last().key@, s.last().curve@)
    }
}

/// No two entries share a key, and every cached curve is well-formed.
pub open spec fn entries_wf(s: Seq<CacheEntry>) -> bool {
    &&& forall|i: int, j: int|
        0 <= i < j < s.len() ==> #[trigger] s[i].key@ != #[trigger] s[j].key@
    &&& forall|i: int| 0 <= i < s.len() ==> curve_wf(#[trigger] s[i].curve@)
}

/// Mathematical image of the whole cache: one key-to-curve map per
/// attribute kind.
pub struct CacheView {
    pub position: Map<Seq<char>, CurveView>,
    pub rotation: Map<Seq<char>, CurveView>,
    pub scaling: Map<Seq<char>, CurveView>,
}

/// The partition of a cache image that an attribute kind selects.
pub open spec fn partition(c: CacheView, kind: AttributeKind) -> Map<Seq<char>, CurveView> {
    match kind {
        AttributeKind::Position => c.position,
        AttributeKind::Rotation => c.rotation,
        AttributeKind::Scaling => c.scaling,
    }
}

/// Keyed, reference-counted store of baked curves.
pub struct CurveAssetCache {
    position: Vec<CacheEntry>,
    rotation: Vec<CacheEntry>,
    scaling: Vec<CacheEntry>,
}

impl View for CurveAssetCache {
    type V = CacheView;

    closed spec fn view(&self) -> CacheView {
        CacheView {
            position: entries_map(self.position@),
            rotation: entries_map(self.rotation@),
            scaling: entries_map(self.scaling@),
        }
    }
}

/// Under unique keys, the folded map holds each entry's pair.
pub proof fn lemma_entries_map_index(s: Seq<CacheEntry>, i: int)
    requires
        entries_wf(s),
        0 <= i < s.len(),
    ensures
        entries_map(s).contains_pair(s[i].key@, s[i].curve@),
    decreases s.len(),
{
    if i < s.len() - 1 {
        lemma_entries_map_index(s.drop_last(), i);
    }
}

/// A key held by no entry is absent from the folded map.
pub proof fn lemma_entries_map_absent(s: Seq<CacheEntry>, k: Seq<char>)
    requires
        forall|i: int| 0 <= i < s.len() ==> #[trigger] s[i].key@ != k,
    ensures
        !entries_map(s).dom().contains(k),
    decreases s.len(),
{
    if s.len() > 0 {
        lemma_entries_map_absent(s.drop_last(), k);
    }
}

/// Appending an entry inserts its pair into the folded map.
pub proof fn lemma_entries_map_push(s: Seq<CacheEntry>, e: CacheEntry)
    ensures
        entries_map(s.push(e)) == entries_map(s).insert(e.key@, e.curve@),
{
    assert(s.push(e).drop_last() =~= s);
}

/// Relies on std's `Rc::clone`: the returned handle shares the same
/// allocation as the argument, so it carries the same curve.
#[verifier::external_body]
fn rc_clone(v: &Rc<FrameCurve>) -> (r: Rc<FrameCurve>)
    ensures
        r == *v,
{
    Rc::clone(v)
}

/// Index of the entry holding `key`, if any.
fn find_entry(entries: &Vec<CacheEntry>, key: &String) -> (r: Option<usize>)
    ensures
        match r {
            Some(i) => 0 <= i < entries@.len() && entries@[i as int].key@ == key@,
            None => forall|i: int| 0 <= i < entries@.len() ==> #[trigger] entries@[i].key@ != key@,
        },
{
    let n = entries.len();
    let mut i: usize = 0;
    while i < n
        invariant
            0 <= i <= n,
            n == entries@.len(),
            forall|j: int| 0 <= j < i ==> #[trigger] entries@[j].key@ != key@,
        decreases n - i,
    {
        if entries[i].key == *key {
            return Some(i);
        }
        i = i + 1;
    }
    None
}

/// Fetch from one partition, handing out a new shared reference.
fn fetch_entry(entries: &Vec<CacheEntry>, key: &String) -> (r: Option<Rc<FrameCurve>>)
    requires
        entries_wf(entries@),
    ensures
        match r {
            Some(c) => entries_map(entries@).contains_pair(key@, c@) && curve_wf(c@),
            None => !entries_map(entries@).dom().contains(key@),
        },
{
    match find_entry(entries, key) {
        Some(i) => {
            proof {
                lemma_entries_map_index(entries@, i as int);
            }
            Some(rc_clone(&entries[i].curve))
        },
        None => {
            proof {
                lemma_entries_map_absent(entries@, key@);
            }
            None
        },
    }
}

/// Insert into one partition; fails without modification when the key is
/// already present.
fn insert_entry(entries: &mut Vec<CacheEntry>, key: String, curve: FrameCurve) -> (r: Result<
    Rc<FrameCurve>,
    AnimError,
>)
    requires
        entries_wf(old(entries)@),
        curve_wf(curve@),
    ensures
        entries_wf(final(entries)@),
        match r {
            Ok(c) => !entries_map(old(entries)@).dom().contains(key@) && c@ == curve@
                && entries_map(final(entries)@) == entries_map(old(entries)@).insert(key@, curve@),
            Err(e) => e == AnimError::DuplicateCurveKey && entries_map(old(entries)@
            ).dom().contains(key@) && final(entries)@ == old(entries)@,
        },
{
    match find_entry(entries, &key) {
        Some(i) => {
            proof {
                lemma_entries_map_index(entries@, i as int);
            }
            Err(AnimError::DuplicateCurveKey)
        },
        None => {
            proof {
                lemma_entries_map_absent(entries@, key@);
            }
            let shared = Rc::new(curve);
            let handle = rc_clone(&shared);
            let ghost prior = entries@;
            entries.push(CacheEntry { key, curve: shared });
            proof {
                lemma_entries_map_push(prior, entries@.last());
            }
            Ok(handle)
        },
    }
}

impl CurveAssetCache {
    /// All partitions hold unique keys and well-formed curves.
    pub closed spec fn wf(&self) -> bool {
        &&& entries_wf(self.position@)
        &&& entries_wf(self.rotation@)
        &&& entries_wf(self.scaling@)
    }

    /// An empty cache.
    pub fn new() -> (c: CurveAssetCache)
        ensures
            c.wf(),
            partition(c@, AttributeKind::Position) =~= Map::<Seq<char>, CurveView>::empty(),
            partition(c@, AttributeKind::Rotation) =~= Map::<Seq<char>, CurveView>::empty(),
            partition(c@, AttributeKind::Scaling) =~= Map::<Seq<char>, CurveView>::empty(),
    {
        CurveAssetCache { position: Vec::new(), rotation: Vec::new(), scaling: Vec::new() }
    }

    /// Look a key up under one attribute kind; a hit hands out a new shared
    /// reference to the cached curve, never a copy.
    pub fn fetch(&self, key: &String, kind: AttributeKind) -> (r: Option<Rc<FrameCurve>>)
        requires
            self.wf(),
        ensures
            match r {
                Some(c) => partition(self@, kind).contains_pair(key@, c@) && curve_wf(c@),
                None => !partition(self@, kind).dom().contains(key@),
            },
    {
        match kind {
            AttributeKind::Position => fetch_entry(&self.position, key),
            AttributeKind::Rotation => fetch_entry(&self.rotation, key),
            AttributeKind::Scaling => fetch_entry(&self.scaling, key),
        }
    }

    /// Publish a curve under a key and kind. A duplicate key under the same
    /// kind fails with `DuplicateCurveKey` and leaves the cache unmodified.
    pub fn insert(&mut self, key: String, kind: AttributeKind, curve: FrameCurve) -> (r: Result<
        Rc<FrameCurve>,
        AnimError,
    >)
        requires
            old(self).wf(),
            curve_wf(curve@),
        ensures
            final(self).wf(),
            forall|other: AttributeKind|
                other != kind ==> partition(final(self)@, other) == partition(old(self)@, other),
            match r {
                Ok(c) => !partition(old(self)@, kind).dom().contains(key@) && c@ == curve@
                    && partition(final(self)@, kind) == partition(old(self)@, kind).insert(
                    key@,
                    curve@,
                ),
                Err(e) => e == AnimError::DuplicateCurveKey && partition(old(self)@,
                kind).dom().contains(key@) && final(self)@ == old(self)@,
            },
    {
        match kind {
            AttributeKind::Position => insert_entry(&mut self.position, key, curve),
            AttributeKind::Rotation => insert_entry(&mut self.rotation, key, curve),
            AttributeKind::Scaling => insert_entry(&mut self.scaling, key, curve),
        }
    }

    /// Return the cached curve for `key` under the kind the channel drives,
    /// or bake the source stream and publish it. An existing key returns a
    /// shared reference to the already-cached curve: the source data is
    /// never compared nor re-baked.
    pub fn bake_or_fetch(
        &mut self,
        key: &String,
        kind: ChannelKind,
        interpolation: Interpolation,
        ticks: &Vec<u16>,
        values: &Vec<AnimValue>,
    ) -> (r: Result<Rc<FrameCurve>, AnimError>)
        requires
            old(self).wf(),
            forall|i: int| 0 <= i < values@.len() ==> value_in_range(#[trigger] values@[i]@),
        ensures
            final(self).wf(),
            kind is MorphTargetWeights ==> r == Err::<Rc<FrameCurve>, AnimError>(
                AnimError::UnsupportedChannelKind,
            ) && final(self)@ == old(self)@,
            !(kind is MorphTargetWeights) && partition(old(self)@, attribute_of(
                kind,
            )).dom().contains(key@) ==> (r matches Ok(c) && c@ == partition(
                old(self)@,
                attribute_of(kind),
            )[key@] && final(self)@ == old(self)@),
            !(kind is MorphTargetWeights) && !partition(old(self)@, attribute_of(
                kind,
            )).dom().contains(key@) && !stream_ok(interpolation, ticks@, values@.len() as int)
                ==> r == Err::<Rc<FrameCurve>, AnimError>(AnimError::MalformedKeyframeStream)
                && final(self)@ == old(self)@,
            !(kind is MorphTargetWeights) && !partition(old(self)@, attribute_of(
                kind,
            )).dom().contains(key@) && stream_ok(interpolation, ticks@, values@.len() as int)
                ==> (r matches Ok(c) && c@.interpolation == interpolation && c@.frames
                == baked_frames(interpolation, ticks@, values@) && curve_wf(c@) && partition(
                final(self)@,
                attribute_of(kind),
            ) == partition(old(self)@, attribute_of(kind)).insert(key@, c@) && forall|
                other: AttributeKind,
            |
                other != attribute_of(kind) ==> partition(final(self)@, other) == partition(
                    old(self)@,
                    other,
                )),
            r matches Ok(c) ==> curve_wf(c@) && partition(final(self)@, attribute_of(
                kind,
            )).contains_pair(key@, c@),
    {
        if matches!(kind, ChannelKind::MorphTargetWeights) {
            return Err(AnimError::UnsupportedChannelKind);
        }
        let attr = crate::ingest::attribute_kind_of(kind);
        if let Some(existing) = self.fetch(key, attr) {
            return Ok(existing);
        }
        match bake_channel(kind, interpolation, ticks, values) {
            Ok((_, curve)) => {
                let inserted = self.insert(key.clone(), attr, curve);
                match inserted {
                    Ok(c) => Ok(c),
                    Err(e) => Err(e),
                }
            },
            Err(e) => Err(e),
        }
    }
}

} // verus!
