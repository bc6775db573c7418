//! Baked interpolation curves: an ordered sequence of keyframes tagged with
//! an interpolation strategy, and the three evaluation strategies (Step,
//! Linear, cubic Hermite spline).

use vstd::prelude::*;
use crate::value::{
    hermite_value, lerp_value, value_hermite, value_in_range, value_lerp, AnimValue, ValueView,
    TICK_LIMIT,
};

verus! {

/// How a curve interpolates between its keyframes.
#[derive(Clone, Copy, Debug, PartialEq, Eq, Structural)]
pub enum Interpolation {
    Step,
    Linear,
    CubicSpline,
}

/// Mathematical image of a [`Keyframe`].
pub struct KeyframeView {
    pub tick: int,
    pub value: ValueView,
    pub tangent_in: ValueView,
    pub tangent_out: ValueView,
}

/// One keyframe: a tick index and a value; for cubic-spline curves the in-
/// and out-tangents are meaningful, otherwise they are zero.
#[derive(Clone, Copy, Debug)]
pub struct Keyframe {
    pub tick: u16,
    pub value: AnimValue,
    pub tangent_in: AnimValue,
    pub tangent_out: AnimValue,
}

impl View for Keyframe {
    type V = KeyframeView;

    open spec fn view(&self) -> KeyframeView {
        KeyframeView {
            tick: self.tick as int,
            value: self.value@,
            tangent_in: self.tangent_in@,
            tangent_out: self.tangent_out@,
        }
    }
}

/// Every stored component of the keyframe is within the component limit and
/// its tick fits the tick range.
pub open spec fn keyframe_in_range(k: KeyframeView) -> bool {
    &&& value_in_range(k.value)
    &&& value_in_range(k.tangent_in)
    &&& value_in_range(k.tangent_out)
    &&& 0 <= k.tick <= TICK_LIMIT
}

/// Mathematical image of a [`FrameCurve`].
pub struct CurveView {
    pub interpolation: Interpolation,
    pub design_frame_per_second: int,
    pub frames: Seq<KeyframeView>,
}

/// A baked curve. Immutable once published to the asset cache.
#[derive(Debug)]
pub struct FrameCurve {
    pub interpolation: Interpolation,
    /// Tick resolution the curve was baked at (ticks per second of source
    /// time); kept for callers that convert wall time to ticks.
    pub design_frame_per_second: u16,
    pub frames: Vec<Keyframe>,
}

impl View for FrameCurve {
    type V = CurveView;

    open spec fn view(&self) -> CurveView {
        CurveView {
            interpolation: self.interpolation,
            design_frame_per_second: self.design_frame_per_second as int,
            frames: self.frames@.map_values(|k: Keyframe| k@),
        }
    }
}

/// Frames are strictly increasing in tick and all components are in range;
/// holds of every prefix of a curve under construction.
pub open spec fn frames_wf(frames: Seq<KeyframeView>) -> bool {
    &&& forall|i: int| 0 <= i < frames.len() ==> keyframe_in_range(#[trigger] frames[i])
    &&& forall|i: int, j: int|
        0 <= i < j < frames.len() ==> #[trigger] frames[i].tick < #[trigger] frames[j].tick
}

/// A published curve is well-formed: at least one keyframe, strictly
/// increasing ticks, components in range.
pub open spec fn curve_wf(c: CurveView) -> bool {
    &&& c.frames.len() >= 1
    &&& frames_wf(c.frames)
}

/// Index of the segment containing tick `t`: the greatest `i` such that
/// `frames[i].tick <= t`, scanning from the front.
pub open spec fn seg_index(frames: Seq<KeyframeView>, t: int) -> int
    decreases frames.len(),
{
    if frames.len() <= 1 {
        0
    } else if t < frames[1].tick {
        0
    } else {
        1 + seg_index(frames.drop_first(), t)
    }
}

/// `seg_index` agrees with any bracketing pair of adjacent keyframes.
pub proof fn lemma_seg_index_unique(frames: Seq<KeyframeView>, t: int, i: int)
    requires
        frames_wf(frames),
        0 <= i < frames.len() - 1,
        frames[i].tick <= t,
        t < frames[i + 1].tick,
    ensures
        seg_index(frames, t) == i,
    decreases frames.len(),
{
    if i == 0 {
    } else {
        let rest = frames.drop_first();
        assert(forall|k: int| 0 <= k < rest.len() ==> rest[k] == frames[k + 1]);
        lemma_seg_index_unique(rest, t, i - 1);
    }
}

/// The value a curve takes at tick `t`. Before the first keyframe the first
/// value is held; at and after the last keyframe the last value is held;
/// between keyframes the curve's strategy decides.
pub open spec fn curve_eval(c: CurveView, t: int) -> ValueView {
    if c.frames.len() == 0 {
        ValueView { x: 0, y: 0, z: 0 }
    } else if t <= c.frames[0].tick {
        c.frames[0].value
    } else if t >= c.frames.last().tick {
        c.frames.last().value
    } else {
        let i = seg_index(c.frames, t);
        let k0 = c.frames[i];
        let k1 = c.frames[i + 1];
        match c.interpolation {
            Interpolation::Step => k0.value,
            Interpolation::Linear => lerp_value(
                k0.value,
                k1.value,
                t - k0.tick,
                k1.tick - k0.tick,
            ),
            Interpolation::CubicSpline => hermite_value(
                k0.value,
                k1.value,
                k0.tangent_out,
                k1.tangent_in,
                t - k0.tick,
                k1.tick - k0.tick,
            ),
        }
    }
}

impl FrameCurve {
    /// An empty curve with the given strategy, baked at `design_frame_per_second`
    /// ticks per second of source time.
    pub fn with_interpolation(interpolation: Interpolation, design_frame_per_second: u16) -> (r:
        FrameCurve)
        ensures
            r@.interpolation == interpolation,
            r@.design_frame_per_second == design_frame_per_second as int,
            r@.frames =~= Seq::<KeyframeView>::empty(),
    {
        FrameCurve { interpolation, design_frame_per_second, frames: Vec::new() }
    }

    /// Append a plain keyframe (Step and Linear curves); tangents are zero.
    pub fn curve_frame_values_frame(&mut self, tick: u16, value: AnimValue)
        requires
            frames_wf(old(self)@.frames),
            value_in_range(value@),
            old(self)@.frames.len() > 0 ==> old(self)@.frames.last().tick < tick as int,
        ensures
            final(self)@.interpolation == old(self)@.interpolation,
            final(self)@.design_frame_per_second == old(self)@.design_frame_per_second,
            final(self)@.frames.len() == old(self)@.frames.len() + 1,
            final(self)@.frames == old(self)@.frames.push(
                KeyframeView {
                    tick: tick as int,
                    value: value@,
                    tangent_in: ValueView { x: 0, y: 0, z: 0 },
                    tangent_out: ValueView { x: 0, y: 0, z: 0 },
                },
            ),
            frames_wf(final(self)@.frames),
    {
        let zero_in = AnimValue::zero();
        let zero_out = AnimValue::zero();
        self.frames.push(
            Keyframe { tick, value, tangent_in: zero_in, tangent_out: zero_out },
        );
        proof {
            assert(self@.frames =~= old(self)@.frames.push(
                KeyframeView {
                    tick: tick as int,
                    value: value@,
                    tangent_in: ValueView { x: 0, y: 0, z: 0 },
                    tangent_out: ValueView { x: 0, y: 0, z: 0 },
                },
            ));
        }
    }

    /// Append a cubic-spline keyframe with explicit in- and out-tangents.
    pub fn curve_cubic_splice_frame(
        &mut self,
        tick: u16,
        value: AnimValue,
        tangent_in: AnimValue,
        tangent_out: AnimValue,
    )
        requires
            frames_wf(old(self)@.frames),
            value_in_range(value@),
            value_in_range(tangent_in@),
            value_in_range(tangent_out@),
            old(self)@.frames.len() > 0 ==> old(self)@.frames.last().tick < tick as int,
        ensures
            final(self)@.interpolation == old(self)@.interpolation,
            final(self)@.design_frame_per_second == old(self)@.design_frame_per_second,
            final(self)@.frames.len() == old(self)@.frames.len() + 1,
            final(self)@.frames == old(self)@.frames.push(
                KeyframeView {
                    tick: tick as int,
                    value: value@,
                    tangent_in: tangent_in@,
                    tangent_out: tangent_out@,
                },
            ),
            frames_wf(final(self)@.frames),
    {
        self.frames.push(Keyframe { tick, value, tangent_in, tangent_out });
        proof {
            assert(self@.frames =~= old(self)@.frames.push(
                KeyframeView {
                    tick: tick as int,
                    value: value@,
                    tangent_in: tangent_in@,
                    tangent_out: tangent_out@,
                },
            ));
        }
    }

    /// Number of keyframes.
    pub fn frame_count(&self) -> (n: usize)
        ensures
            n == self@.frames.len(),
    {
        self.frames.len()
    }

    /// Evaluate the curve at a tick.
    pub fn sample(&self, tick: u16) -> (r: AnimValue)
        requires
            curve_wf(self@),
        ensures
            r@ == curve_eval(self@, tick as int),
    {
        let n = self.frames.len();
        let first = self.frames[0];
        if tick <= first.tick {
            return first.value;
        }
        let last_kf = self.frames[n - 1];
        if tick >= last_kf.tick {
            return last_kf.value;
        }
        let mut i: usize = 0;
        while self.frames[i + 1].tick <= tick
            invariant
                curve_wf(self@),
                n == self@.frames.len(),
                0 <= i < n - 1,
                self@.frames[i as int].tick <= tick as int,
                (tick as int) < self@.frames[n - 1].tick,
            decreases n - i,
        {
            i = i + 1;
        }
        proof {
            lemma_seg_index_unique(self@.frames, tick as int, i as int);
        }
        let k0 = self.frames[i];
        let k1 = self.frames[i + 1];
        match self.interpolation {
            Interpolation::Step => k0.value,
            Interpolation::Linear => value_lerp(
                &k0.value,
                &k1.value,
                tick - k0.tick,
                k1.tick - k0.tick,
            ),
            Interpolation::CubicSpline => value_hermite(
                &k0.value,
                &k1.value,
                &k0.tangent_out,
                &k1.tangent_in,
                tick - k0.tick,
                k1.tick - k0.tick,
            ),
        }
    }
}

} // verus!
