//! Properties of the library stated and proved as theorems: exact endpoint
//! and midpoint behaviour of linear curves, hold behaviour of step curves,
//! keyframe exactness of cubic splines, playback determinism, and
//! finite-loop termination.

use vstd::prelude::*;
use vstd::arithmetic::div_mod::{lemma_div_is_ordered, lemma_div_multiples_vanish};
use crate::curve::{
    curve_eval, curve_wf, lemma_seg_index_unique, CurveView, Interpolation,
};
use crate::group::{
    amount_eval, budget_exhausted, group_emits, group_step, group_tick_after, group_wf,
    hold_pos, lemma_amount_range, target_command, window_len, CommandView, GroupView, LoopMode,
    PlaybackState,
};
use crate::system::{scenes_emits, scenes_step, SceneSlotView};
use crate::value::{hermite1, lemma_tdiv_exact, lerp1, tdiv, ValueView};

verus! {

/// Linear interpolation of one component hits the arithmetic mean at the
/// window midpoint when the tick span and the component difference are
/// both even.
proof fn lemma_lerp_midpoint(a: int, b: int, d: int)
    requires
        0 < d,
        d % 2 == 0,
        (b - a) % 2 == 0,
    ensures
        lerp1(a, b, d / 2, d) == (a + b) / 2,
{
    let h = d / 2;
    let k = (b - a) / 2;
    assert(d == 2 * h);
    assert(b - a == 2 * k);
    assert((b - a) * h == k * d) by (nonlinear_arith)
        requires
            d == 2 * h,
            b - a == 2 * k,
    ;
    lemma_tdiv_exact(k, d);
    assert(lerp1(a, b, h, d) == a + k);
    assert(a + b == 2 * (a + k));
    lemma_div_multiples_vanish(a + k, 2);
    assert((a + b) / 2 == a + k);
}

/// For a two-keyframe linear curve, evaluation at the first tick yields the
/// first value, at the second tick the second value, and at the midpoint
/// the arithmetic mean of the two values component-wise — provided the tick
/// span and each component difference are even, so that the midpoint and
/// the mean are exact in fixed-point arithmetic.
pub proof fn lemma_linear_two_keyframes(c: CurveView)
    requires
        curve_wf(c),
        c.interpolation is Linear,
        c.frames.len() == 2,
        (c.frames[1].tick - c.frames[0].tick) % 2 == 0,
        (c.frames[1].value.x - c.frames[0].value.x) % 2 == 0,
        (c.frames[1].value.y - c.frames[0].value.y) % 2 == 0,
        (c.frames[1].value.z - c.frames[0].value.z) % 2 == 0,
    ensures
        curve_eval(c, c.frames[0].tick) == c.frames[0].value,
        curve_eval(c, c.frames[1].tick) == c.frames[1].value,
        curve_eval(c, (c.frames[0].tick + c.frames[1].tick) / 2) == (ValueView {
            x: (c.frames[0].value.x + c.frames[1].value.x) / 2,
            y: (c.frames[0].value.y + c.frames[1].value.y) / 2,
            z: (c.frames[0].value.z + c.frames[1].value.z) / 2,
        }),
{
    let t0 = c.frames[0].tick;
    let t1 = c.frames[1].tick;
    let d = t1 - t0;
    assert(t0 < t1);
    let tm = (t0 + t1) / 2;
    assert(t0 + t1 == 2 * t0 + d);
    assert(d == 2 * (d / 2));
    assert(t0 + t1 == 2 * (t0 + d / 2));
    lemma_div_multiples_vanish(t0 + d / 2, 2);
    assert(tm == t0 + d / 2);
    if d == 0 {
    } else {
        assert(d >= 2);
        assert(t0 < tm < t1);
        lemma_seg_index_unique(c.frames, tm, 0);
        lemma_lerp_midpoint(c.frames[0].value.x, c.frames[1].value.x, d);
        lemma_lerp_midpoint(c.frames[0].value.y, c.frames[1].value.y, d);
        lemma_lerp_midpoint(c.frames[0].value.z, c.frames[1].value.z, d);
        assert(curve_eval(c, tm) == crate::value::lerp_value(
            c.frames[0].value,
            c.frames[1].value,
            tm - t0,
            d,
        ));
    }
}

/// A step curve holds each keyframe's value over the whole half-open
/// interval up to the next keyframe: no interpolation.
pub proof fn lemma_step_hold(c: CurveView, i: int, t: int)
    requires
        curve_wf(c),
        c.interpolation is Step,
        0 <= i < c.frames.len() - 1,
        c.frames[i].tick <= t < c.frames[i + 1].tick,
    ensures
        curve_eval(c, t) == c.frames[i].value,
{
    if t <= c.frames[0].tick {
        assert(i == 0);
    } else {
        assert(t < c.frames.last().tick);
        lemma_seg_index_unique(c.frames, t, i);
    }
}

/// The cubic Hermite basis collapses to the left value at the left
/// endpoint of a segment.
proof fn lemma_hermite_at_start(v0: int, v1: int, m0: int, m1: int, d: int)
    requires
        0 < d,
    ensures
        hermite1(v0, v1, m0, m1, 0, d) == v0,
{
    let d3 = d * d * d;
    assert(0 < d3) by (nonlinear_arith)
        requires
            0 < d,
            d3 == d * d * d,
    ;
    assert((d * d * d + 0 * 0 * 0 * 2 - 0 * 0 * d * 3) * v0 + (0 * 0 * 0 - 0 * 0 * d * 2 + 0 * d
        * d) * (m0 * d) + (0 * 0 * d * 3 - 0 * 0 * 0 * 2) * v1 + (0 * 0 * 0 - 0 * 0 * d) * (m1
        * d) == v0 * d3) by (nonlinear_arith)
        requires
            d3 == d * d * d,
    ;
    lemma_tdiv_exact(v0, d3);
}

/// A cubic-spline curve passes exactly through each of its keyframes:
/// tangents affect only interior ticks.
pub proof fn lemma_cubic_at_keyframe(c: CurveView, i: int)
    requires
        curve_wf(c),
        c.interpolation is CubicSpline,
        0 <= i < c.frames.len(),
    ensures
        curve_eval(c, c.frames[i].tick) == c.frames[i].value,
{
    let t = c.frames[i].tick;
    if i == 0 {
    } else if i == c.frames.len() - 1 {
        assert(t >= c.frames.last().tick);
    } else {
        assert(c.frames[0].tick < t);
        assert(t < c.frames.last().tick);
        lemma_seg_index_unique(c.frames, t, i);
        let d = c.frames[i + 1].tick - c.frames[i].tick;
        lemma_hermite_at_start(
            c.frames[i].value.x,
            c.frames[i + 1].value.x,
            c.frames[i].tangent_out.x,
            c.frames[i + 1].tangent_in.x,
            d,
        );
        lemma_hermite_at_start(
            c.frames[i].value.y,
            c.frames[i + 1].value.y,
            c.frames[i].tangent_out.y,
            c.frames[i + 1].tangent_in.y,
            d,
        );
        lemma_hermite_at_start(
            c.frames[i].value.z,
            c.frames[i + 1].value.z,
            c.frames[i].tangent_out.z,
            c.frames[i + 1].tangent_in.z,
            d,
        );
    }
}

/// The commands emitted by a whole run: each advance emits the commands of
/// the current registry state and steps it.
pub open spec fn run_emits(scenes: Seq<SceneSlotView>, deltas: Seq<int>) -> Seq<CommandView>
    decreases deltas.len(),
{
    if deltas.len() == 0 {
        Seq::empty()
    } else {
        scenes_emits(scenes, deltas[0]) + run_emits(
            scenes_step(scenes, deltas[0]),
            deltas.drop_first(),
        )
    }
}

/// Playback determinism: the advance contract pins the stepped registry
/// and the emitted commands as functions of the prior state alone, so two
/// runs from equal states over the same sequence of frame deltas emit
/// identical command sequences — there is no hidden nondeterminism.
pub proof fn lemma_playback_deterministic(
    r1: Seq<SceneSlotView>,
    r2: Seq<SceneSlotView>,
    deltas: Seq<int>,
)
    requires
        r1 == r2,
    ensures
        run_emits(r1, deltas) == run_emits(r2, deltas),
{
}

/// Finite-loop termination: a playing group with a finite forward repeat
/// budget of `n` passes stops on the advance whose cumulative progress
/// reaches `n` window lengths, and the commands it emits on that advance
/// carry the curve values at the window end.
pub proof fn lemma_finite_loop_stop(g: GroupView, delta_ms: int, n: u32)
    requires
        group_wf(g),
        g.state is Playing,
        g.loop_mode == LoopMode::Positive(Some(n)),
        crate::group::elapsed_ticks(crate::group::acc_step(g, delta_ms)) >= n * window_len(g),
    ensures
        group_step(g, delta_ms).state is Stopped,
        group_tick_after(g, delta_ms) == g.window_end,
        group_emits(g, delta_ms) == Seq::new(
            g.targets.len(),
            |i: int| target_command(g.targets[i], g.window_end),
        ),
{
    let l = window_len(g);
    let e = crate::group::elapsed_ticks(crate::group::acc_step(g, delta_ms));
    assert(0 < l);
    assert(n * l == l * n) by (nonlinear_arith);
    lemma_div_is_ordered(l * n, e, l);
    lemma_div_multiples_vanish(n as int, l);
    assert(e / l >= n);
    assert(budget_exhausted(g, e));
    assert(hold_pos(g) == l);
    lemma_amount_range(g.amount, l, l);
    assert(amount_eval(g.amount, l, l) == l);
    assert(group_tick_after(g, delta_ms) == g.window_start + l);
    assert(group_emits(g, delta_ms) =~= Seq::new(
        g.targets.len(),
        |i: int| target_command(g.targets[i], g.window_end),
    ));
}

} // verus!
