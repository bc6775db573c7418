//! Keyframe ingest: converts a raw timestamp/value stream plus an
//! interpolation mode into a baked [`FrameCurve`]. Pure; no shared state.
//!
//! Timestamps arrive already converted to ticks (the loader converts source
//! seconds with `round(seconds * 1000)` at the boundary). For cubic-spline
//! streams the value stream carries explicit `(in-tangent, value,
//! out-tangent)` triples per timestamp, read by direct indexing.

use vstd::prelude::*;
use crate::curve::{curve_wf, frames_wf, FrameCurve, Interpolation, KeyframeView};
use crate::errors::AnimError;
use crate::value::{value_in_range, AnimValue, ValueView};

verus! {

/// What a source channel drives, as found in the interchange format.
#[derive(Clone, Copy, Debug, PartialEq, Eq, Structural)]
pub enum ChannelKind {
    Translation,
    Rotation,
    Scale,
    MorphTargetWeights,
}

/// The attribute partitions the system models.
#[derive(Clone, Copy, Debug, PartialEq, Eq, Structural)]
pub enum AttributeKind {
    Position,
    Rotation,
    Scaling,
}

/// The attribute a supported channel kind drives. Meaningful only for
/// channel kinds other than `MorphTargetWeights`.
pub open spec fn attribute_of(kind: ChannelKind) -> AttributeKind {
    match kind {
        ChannelKind::Translation => AttributeKind::Position,
        ChannelKind::Rotation => AttributeKind::Rotation,
        ChannelKind::Scale => AttributeKind::Scaling,
        ChannelKind::MorphTargetWeights => AttributeKind::Position,
    }
}

/// The number of stream values a well-formed stream carries: three per
/// timestamp for cubic-spline streams, one per timestamp otherwise.
pub open spec fn stream_arity_ok(
    interpolation: Interpolation,
    ticks_len: int,
    values_len: int,
) -> bool {
    if interpolation is CubicSpline {
        values_len == 3 * ticks_len
    } else {
        values_len == ticks_len
    }
}

/// Timestamps must be strictly increasing.
pub open spec fn stream_monotonic(ticks: Seq<u16>) -> bool {
    forall|i: int, j: int| 0 <= i < j < ticks.len() ==> ticks[i] < ticks[j]
}

/// A stream the ingest accepts: nonempty, strictly increasing, with the
/// value count matching the interpolation mode.
pub open spec fn stream_ok(
    interpolation: Interpolation,
    ticks: Seq<u16>,
    values_len: int,
) -> bool {
    &&& ticks.len() >= 1
    &&& stream_monotonic(ticks)
    &&& stream_arity_ok(interpolation, ticks.len() as int, values_len)
}

/// The keyframe baked from position `i` of a stream.
pub open spec fn baked_frame_at(
    interpolation: Interpolation,
    ticks: Seq<u16>,
    values: Seq<AnimValue>,
    i: int,
) -> KeyframeView {
    if interpolation is CubicSpline {
        KeyframeView {
            tick: ticks[i] as int,
            value: values[3 * i + 1]@,
            tangent_in: values[3 * i]@,
            tangent_out: values[3 * i + 2]@,
        }
    } else {
        KeyframeView {
            tick: ticks[i] as int,
            value: values[i]@,
            tangent_in: ValueView { x: 0, y: 0, z: 0 },
            tangent_out: ValueView { x: 0, y: 0, z: 0 },
        }
    }
}

/// The full baked keyframe sequence of a stream.
pub open spec fn baked_frames(
    interpolation: Interpolation,
    ticks: Seq<u16>,
    values: Seq<AnimValue>,
) -> Seq<KeyframeView> {
    Seq::new(ticks.len(), |i: int| baked_frame_at(interpolation, ticks, values, i))
}

/// Bake one channel: reject unsupported channel kinds and malformed
/// streams, otherwise produce the attribute the channel drives and its
/// baked curve at 1000 ticks per second of source time.
#[verifier::loop_isolation(false)]
pub fn bake_channel(
    kind: ChannelKind,
    interpolation: Interpolation,
    ticks: &Vec<u16>,
    values: &Vec<AnimValue>,
) -> (r: Result<(AttributeKind, FrameCurve), AnimError>)
    requires
        forall|i: int| 0 <= i < values@.len() ==> value_in_range(#[trigger] values@[i]@),
    ensures
        kind is MorphTargetWeights ==> r == Err::<(AttributeKind, FrameCurve), AnimError>(
            AnimError::UnsupportedChannelKind,
        ),
        !(kind is MorphTargetWeights) && !stream_ok(interpolation, ticks@, values@.len() as int)
            ==> r == Err::<(AttributeKind, FrameCurve), AnimError>(
            AnimError::MalformedKeyframeStream,
        ),
        !(kind is MorphTargetWeights) && stream_ok(interpolation, ticks@, values@.len() as int)
            ==> (r matches Ok(p) && p.0 == attribute_of(kind) && p.1@.interpolation
            == interpolation && p.1@.design_frame_per_second == 1000 && p.1@.frames
            == baked_frames(interpolation, ticks@, values@) && curve_wf(p.1@)),
{
    if matches!(kind, ChannelKind::MorphTargetWeights) {
        return Err(AnimError::UnsupportedChannelKind);
    }
    if ticks.len() == 0 {
        return Err(AnimError::MalformedKeyframeStream);
    }
    let vlen = values.len();
    let arity_ok: bool = if matches!(interpolation, Interpolation::CubicSpline) {
        match ticks.len().checked_mul(3) {
            Some(m) => vlen == m,
            None => false,
        }
    } else {
        vlen == ticks.len()
    };
    if !arity_ok {
        return Err(AnimError::MalformedKeyframeStream);
    }
    let n = ticks.len();
    let mut i: usize = 1;
    while i < n
        invariant
            1 <= i <= n,
            n == ticks@.len(),
            forall|p: int, q: int| 0 <= p < q < i ==> ticks@[p] < ticks@[q],
        decreases n - i,
    {
        if ticks[i - 1] >= ticks[i] {
            proof {
                assert(!(ticks@[i as int - 1] < ticks@[i as int]));
                assert(!stream_monotonic(ticks@));
            }
            return Err(AnimError::MalformedKeyframeStream);
        }
        i = i + 1;
    }
    assert(stream_monotonic(ticks@));
    let mut curve = FrameCurve::with_interpolation(interpolation, 1000);
    if matches!(interpolation, Interpolation::CubicSpline) {
        let mut j: usize = 0;
        while j < n
            invariant
                0 <= j <= n,
                n == ticks@.len(),
                values@.len() == 3 * n,
                interpolation is CubicSpline,
                stream_ok(interpolation, ticks@, values@.len() as int),
                forall|k: int| 0 <= k < values@.len() ==> value_in_range(#[trigger] values@[k]@),
                curve@.interpolation == interpolation,
                curve@.design_frame_per_second == 1000,
                curve@.frames.len() == j,
                frames_wf(curve@.frames),
                forall|k: int|
                    0 <= k < j ==> curve@.frames[k] == baked_frame_at(
                        interpolation,
                        ticks@,
                        values@,
                        k,
                    ),
            decreases n - j,
        {
            proof {
                if j > 0 {
                    assert(curve@.frames.last() == baked_frame_at(
                        interpolation,
                        ticks@,
                        values@,
                        j - 1,
                    ));
                }
            }
            curve.curve_cubic_splice_frame(
                ticks[j],
                values[3 * j + 1],
                values[3 * j],
                values[3 * j + 2],
            );
            j = j + 1;
        }
        proof {
            assert(curve@.frames =~= baked_frames(interpolation, ticks@, values@));
        }
        Ok((attribute_kind_of(kind), curve))
    } else {
        let mut j: usize = 0;
        while j < n
            invariant
                0 <= j <= n,
                n == ticks@.len(),
                values@.len() == n,
                !(interpolation is CubicSpline),
                stream_ok(interpolation, ticks@, values@.len() as int),
                forall|k: int| 0 <= k < values@.len() ==> value_in_range(#[trigger] values@[k]@),
                curve@.interpolation == interpolation,
                curve@.design_frame_per_second == 1000,
                curve@.frames.len() == j,
                frames_wf(curve@.frames),
                forall|k: int|
                    0 <= k < j ==> curve@.frames[k] == baked_frame_at(
                        interpolation,
                        ticks@,
                        values@,
                        k,
                    ),
            decreases n - j,
        {
            proof {
                if j > 0 {
                    assert(curve@.frames.last() == baked_frame_at(
                        interpolation,
                        ticks@,
                        values@,
                        j - 1,
                    ));
                }
            }
            curve.curve_frame_values_frame(ticks[j], values[j]);
            j = j + 1;
        }
        proof {
            assert(curve@.frames =~= baked_frames(interpolation, ticks@, values@));
        }
        Ok((attribute_kind_of(kind), curve))
    }
}

/// Executable twin of [`attribute_of`].
pub fn attribute_kind_of(kind: ChannelKind) -> (r: AttributeKind)
    ensures
        r == attribute_of(kind),
{
    match kind {
        ChannelKind::Translation => AttributeKind::Position,
        ChannelKind::Rotation => AttributeKind::Rotation,
        ChannelKind::Scale => AttributeKind::Scaling,
        ChannelKind::MorphTargetWeights => AttributeKind::Position,
    }
}

} // verus!
