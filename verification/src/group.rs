//! Animation groups: named sets of target bindings played back together
//! under one progress/loop state, with the playback state machine and the
//! per-tick progress arithmetic.
//!
//! Progress is accumulated in a saturating `u64` of tick-millionths
//! (`delta_ms * ticks_per_second * speed_permille`), so a fixed sequence of
//! `advance` calls always produces the same ticks.

use vstd::prelude::*;
use vstd::arithmetic::div_mod::{
    lemma_div_is_ordered, lemma_div_multiples_vanish, lemma_mod_division_less_than_divisor,
};
use std::rc::Rc;
use crate::curve::{curve_eval, curve_wf, keyframe_in_range, CurveView, FrameCurve};
use crate::errors::AnimError;
use crate::ingest::AttributeKind;
use crate::value::{AnimValue, ValueView, TICK_LIMIT};

verus! {

/// Playback state of a group.
#[derive(Clone, Copy, Debug, PartialEq, Eq, Structural)]
pub enum PlaybackState {
    Idle,
    Playing,
    Paused,
    Stopped,
}

/// How playback walks the window: forward, backward, or alternating, each
/// either a finite number of passes or indefinitely.
#[derive(Clone, Copy, Debug)]
pub enum LoopMode {
    Positive(Option<u32>),
    Negative(Option<u32>),
    PingPong(Option<u32>),
}

/// Monotonic easing remap applied to progress within the window before it
/// indexes the curve.
#[derive(Clone, Copy, Debug)]
pub enum AmountCalc {
    Identity,
    EaseInQuad,
    EaseOutQuad,
}

/// Mathematical image of an [`Animation`].
pub struct AnimationView {
    pub curve: CurveView,
    pub base_offset: int,
    pub kind: AttributeKind,
}

/// A lightweight handle pairing a cached curve reference with a base frame
/// offset (currently always zero) and the attribute channel it drives.
pub struct Animation {
    pub curve: Rc<FrameCurve>,
    pub base_offset: u16,
    pub kind: AttributeKind,
}

impl View for Animation {
    type V = AnimationView;

    open spec fn view(&self) -> AnimationView {
        AnimationView {
            curve: self.curve@,
            base_offset: self.base_offset as int,
            kind: self.kind,
        }
    }
}

impl Animation {
    /// Bind a cached curve to an attribute channel at base offset zero.
    pub fn new(curve: Rc<FrameCurve>, kind: AttributeKind) -> (a: Animation)
        ensures
            a@.curve == curve@,
            a@.base_offset == 0,
            a@.kind == kind,
    {
        Animation { curve, base_offset: 0, kind }
    }
}

/// Mathematical image of a [`TargetAnimation`].
pub struct TargetAnimationView {
    pub target: int,
    pub animation: AnimationView,
}

/// One binding of a curve to a target object's attribute within a group.
pub struct TargetAnimation {
    pub target: u64,
    pub animation: Animation,
}

impl View for TargetAnimation {
    type V = TargetAnimationView;

    open spec fn view(&self) -> TargetAnimationView {
        TargetAnimationView { target: self.target as int, animation: self.animation@ }
    }
}

/// Mathematical image of an [`AttributeCommand`].
pub struct CommandView {
    pub target: int,
    pub kind: AttributeKind,
    pub value: ValueView,
}

/// An attribute-write command emitted by playback: the scene-graph apply
/// phase writes `value` to `target`'s attribute of kind `kind`.
#[derive(Clone, Copy, Debug, PartialEq, Eq, Structural)]
pub struct AttributeCommand {
    pub target: u64,
    pub kind: AttributeKind,
    pub value: AnimValue,
}

impl View for AttributeCommand {
    type V = CommandView;

    open spec fn view(&self) -> CommandView {
        CommandView { target: self.target as int, kind: self.kind, value: self.value@ }
    }
}

/// Mathematical image of an [`AnimationGroup`].
pub struct GroupView {
    pub targets: Seq<TargetAnimationView>,
    pub state: PlaybackState,
    pub loop_mode: LoopMode,
    pub speed_permille: int,
    pub window_start: int,
    pub window_end: int,
    pub ticks_per_second: int,
    pub amount: AmountCalc,
    pub acc: int,
}

/// A named set of target bindings with shared playback state. Progress is
/// `acc` tick-millionths since `start`.
pub struct AnimationGroup {
    pub targets: Vec<TargetAnimation>,
    pub state: PlaybackState,
    pub loop_mode: LoopMode,
    pub speed_permille: u32,
    pub window_start: u16,
    pub window_end: u16,
    pub ticks_per_second: u16,
    pub amount: AmountCalc,
    pub acc: u64,
}

impl View for AnimationGroup {
    type V = GroupView;

    open spec fn view(&self) -> GroupView {
        GroupView {
            targets: self.targets@.map_values(|t: TargetAnimation| t@),
            state: self.state,
            loop_mode: self.loop_mode,
            speed_permille: self.speed_permille as int,
            window_start: self.window_start as int,
            window_end: self.window_end as int,
            ticks_per_second: self.ticks_per_second as int,
            amount: self.amount,
            acc: self.acc as int,
        }
    }
}

/// A group whose playback parameters have been set by `start`.
pub open spec fn group_configured(g: GroupView) -> bool {
    &&& 0 <= g.window_start < g.window_end <= TICK_LIMIT
    &&& 1 <= g.ticks_per_second <= TICK_LIMIT
}

/// Well-formedness of a group: machine ranges on its fields, well-formed
/// curves behind every binding, and configured playback parameters in any
/// state that `start` has been through.
pub open spec fn group_wf(g: GroupView) -> bool {
    &&& forall|i: int|
        0 <= i < g.targets.len() ==> curve_wf((#[trigger] g.targets[i]).animation.curve)
    &&& forall|i: int|
        0 <= i < g.targets.len() ==> 0 <= (#[trigger] g.targets[i]).animation.base_offset
            <= TICK_LIMIT
    &&& !(g.state is Idle) ==> group_configured(g)
    &&& 0 <= g.acc <= u64::MAX
    &&& 0 <= g.speed_permille <= u32::MAX
    &&& 0 <= g.window_start <= g.window_end <= TICK_LIMIT
    &&& 0 <= g.ticks_per_second <= TICK_LIMIT
}

/// The easing remap on a window position: `pos` through `a`, over a window
/// of length `len`. Identity, quadratic ease-in, or quadratic ease-out;
/// each maps `0` to `0` and `len` to `len` and is monotonic.
pub open spec fn amount_eval(a: AmountCalc, pos: int, len: int) -> int {
    match a {
        AmountCalc::Identity => pos,
        AmountCalc::EaseInQuad => (pos * pos) / len,
        AmountCalc::EaseOutQuad => len - ((len - pos) * (len - pos)) / len,
    }
}

/// The easing remap stays within the window and fixes its endpoints.
pub proof fn lemma_amount_range(a: AmountCalc, pos: int, len: int)
    requires
        0 <= pos <= len,
        0 < len,
    ensures
        0 <= amount_eval(a, pos, len) <= len,
        amount_eval(a, 0, len) == 0,
        amount_eval(a, len, len) == len,
{
    lemma_sq_div_range(pos, len);
    lemma_sq_div_range(len - pos, len);
    lemma_sq_div_range(0, len);
    lemma_sq_div_range(len, len);
}

/// `0 <= x <= len` implies `0 <= x*x/len <= len`, with `len*len/len == len`.
proof fn lemma_sq_div_range(x: int, len: int)
    requires
        0 <= x <= len,
        0 < len,
    ensures
        0 <= (x * x) / len <= len,
        x == len ==> (x * x) / len == len,
        x == 0 ==> (x * x) / len == 0,
{
    assert(0 <= x * x <= len * len) by (nonlinear_arith)
        requires
            0 <= x <= len,
    ;
    assert(len * len == len * len);
    lemma_div_is_ordered(0, x * x, len);
    lemma_div_is_ordered(x * x, len * len, len);
    lemma_div_multiples_vanish(len, len);
    assert(len * len == len * len) by (nonlinear_arith);
    if x == 0 {
        assert((0int * 0int) == 0int);
        lemma_div_multiples_vanish(0, len);
    }
}

/// Monotonicity of the easing remap in the window position.
pub proof fn lemma_amount_monotonic(a: AmountCalc, p1: int, p2: int, len: int)
    requires
        0 <= p1 <= p2 <= len,
        0 < len,
    ensures
        amount_eval(a, p1, len) <= amount_eval(a, p2, len),
{
    assert(p1 * p1 <= p2 * p2) by (nonlinear_arith)
        requires
            0 <= p1 <= p2,
    ;
    assert((len - p2) * (len - p2) <= (len - p1) * (len - p1)) by (nonlinear_arith)
        requires
            0 <= len - p2 <= len - p1,
    ;
    lemma_div_is_ordered(p1 * p1, p2 * p2, len);
    lemma_div_is_ordered((len - p2) * (len - p2), (len - p1) * (len - p1), len);
}

/// Executable easing remap.
pub fn amount_apply(a: AmountCalc, pos: u16, len: u16) -> (r: u16)
    requires
        pos <= len,
        0 < len,
    ensures
        r as int == amount_eval(a, pos as int, len as int),
        r <= len,
{
    proof {
        lemma_amount_range(a, pos as int, len as int);
    }
    match a {
        AmountCalc::Identity => pos,
        AmountCalc::EaseInQuad => {
            proof {
                assert((pos as int) * (pos as int) <= 65_535 * 65_535) by (nonlinear_arith)
                    requires
                        0 <= pos <= 65_535,
                ;
            }
            let p: u64 = (pos as u64) * (pos as u64);
            (p / (len as u64)) as u16
        },
        AmountCalc::EaseOutQuad => {
            let rest = len - pos;
            proof {
                assert((rest as int) * (rest as int) <= 65_535 * 65_535) by (nonlinear_arith)
                    requires
                        0 <= rest <= 65_535,
                ;
                lemma_sq_div_range(rest as int, len as int);
            }
            let p: u64 = (rest as u64) * (rest as u64);
            len - (p / (len as u64)) as u16
        },
    }
}

/// Window length in ticks.
pub open spec fn window_len(g: GroupView) -> int {
    g.window_end - g.window_start
}

/// Progress accumulator after one advance: saturating at `u64::MAX`.
pub open spec fn acc_step(g: GroupView, delta_ms: int) -> int {
    let inc = delta_ms * g.ticks_per_second * g.speed_permille;
    if g.acc + inc > u64::MAX {
        u64::MAX as int
    } else {
        g.acc + inc
    }
}

/// Whole ticks elapsed for a given accumulator value.
pub open spec fn elapsed_ticks(acc: int) -> int {
    acc / 1_000_000
}

/// The repeat budget of a loop mode, if finite.
pub open spec fn loop_count(m: LoopMode) -> Option<u32> {
    match m {
        LoopMode::Positive(c) => c,
        LoopMode::Negative(c) => c,
        LoopMode::PingPong(c) => c,
    }
}

/// A finite repeat budget is exhausted once the elapsed ticks cover that
/// many passes over the window.
pub open spec fn budget_exhausted(g: GroupView, e: int) -> bool {
    match loop_count(g.loop_mode) {
        Some(n) => e / window_len(g) >= n,
        None => false,
    }
}

/// Position within the window while still playing, for elapsed ticks `e`.
pub open spec fn play_pos(g: GroupView, e: int) -> int {
    let l = window_len(g);
    match g.loop_mode {
        LoopMode::Positive(_) => e % l,
        LoopMode::Negative(_) => l - (e % l),
        LoopMode::PingPong(_) => if (e / l) % 2 == 0 {
            e % l
        } else {
            l - (e % l)
        },
    }
}

/// Position held after a finite repeat budget is exhausted: the end of the
/// final pass, so target attributes do not snap.
pub open spec fn hold_pos(g: GroupView) -> int {
    let l = window_len(g);
    match g.loop_mode {
        LoopMode::Positive(_) => l,
        LoopMode::Negative(_) => 0,
        LoopMode::PingPong(_) => match loop_count(g.loop_mode) {
            Some(n) => if n % 2 == 1 {
                l
            } else {
                0
            },
            None => l,
        },
    }
}

/// Window position after one advance of a playing group.
pub open spec fn group_pos_after(g: GroupView, delta_ms: int) -> int {
    let e = elapsed_ticks(acc_step(g, delta_ms));
    if budget_exhausted(g, e) {
        hold_pos(g)
    } else {
        play_pos(g, e)
    }
}

/// Curve tick after one advance of a playing group: window start plus the
/// eased window position.
pub open spec fn group_tick_after(g: GroupView, delta_ms: int) -> int {
    g.window_start + amount_eval(g.amount, group_pos_after(g, delta_ms), window_len(g))
}

/// State of a group after one advance. Only playing groups move; a playing
/// group whose finite repeat budget is exhausted stops.
pub open spec fn group_step(g: GroupView, delta_ms: int) -> GroupView {
    if g.state is Playing {
        GroupView {
            acc: acc_step(g, delta_ms),
            state: if budget_exhausted(g, elapsed_ticks(acc_step(g, delta_ms))) {
                PlaybackState::Stopped
            } else {
                PlaybackState::Playing
            },
            ..g
        }
    } else {
        g
    }
}

/// The command one binding emits at a curve tick.
pub open spec fn target_command(t: TargetAnimationView, tick: int) -> CommandView {
    CommandView {
        target: t.target,
        kind: t.animation.kind,
        value: curve_eval(t.animation.curve, tick + t.animation.base_offset),
    }
}

/// The mathematical image of a machine command sequence.
pub open spec fn commands_view(s: Seq<AttributeCommand>) -> Seq<CommandView> {
    s.map_values(|c: AttributeCommand| c@)
}

/// The commands a group emits during one advance: one per binding, in
/// binding order, for playing groups only.
pub open spec fn group_emits(g: GroupView, delta_ms: int) -> Seq<CommandView> {
    if g.state is Playing {
        Seq::new(g.targets.len(), |i: int| target_command(g.targets[i], group_tick_after(g, delta_ms)))
    } else {
        Seq::empty()
    }
}

/// The windowing contract, kept by every loop mode: while a group plays,
/// the curve tick it evaluates stays within its window.
pub proof fn lemma_tick_in_window(g: GroupView, delta_ms: int)
    requires
        group_wf(g),
        g.state is Playing,
        delta_ms >= 0,
    ensures
        g.window_start <= group_tick_after(g, delta_ms) <= g.window_end,
{
    let l = window_len(g);
    let acc = acc_step(g, delta_ms);
    let e = elapsed_ticks(acc);
    assert(delta_ms * g.ticks_per_second * g.speed_permille >= 0) by (nonlinear_arith)
        requires
            delta_ms >= 0,
            g.ticks_per_second >= 0,
            g.speed_permille >= 0,
    ;
    vstd::arithmetic::div_mod::lemma_div_pos_is_pos(acc, 1_000_000);
    lemma_mod_division_less_than_divisor(e, l);
    if (e / l) % 2 != 0 {
        lemma_mod_division_less_than_divisor(e / l, 2);
    }
    let pos = group_pos_after(g, delta_ms);
    assert(0 <= pos <= l);
    lemma_amount_range(g.amount, pos, l);
}

/// Clamping an evaluation tick to the tick range does not change the value:
/// every keyframe tick is within the range, so both ticks are past the last
/// keyframe.
proof fn lemma_eval_clamp(c: CurveView, t: int)
    requires
        curve_wf(c),
        TICK_LIMIT <= t,
    ensures
        curve_eval(c, t) == curve_eval(c, TICK_LIMIT as int),
{
    let len = c.frames.len() as int;
    assert(keyframe_in_range(c.frames[0]));
    assert(keyframe_in_range(c.frames[len - 1]));
    assert(c.frames.last() == c.frames[len - 1]);
    if len >= 2 {
        assert(c.frames[0].tick < c.frames[len - 1].tick);
    }
}

/// Evaluate one binding at a curve tick and form its command.
pub fn eval_target(t: &TargetAnimation, tick: u16) -> (c: AttributeCommand)
    requires
        curve_wf(t.animation.curve@),
    ensures
        c@ == target_command(t@, tick as int),
{
    let sum: u32 = tick as u32 + t.animation.base_offset as u32;
    let et: u16 = if sum > 65_535 {
        proof {
            lemma_eval_clamp(t.animation.curve@, tick as int + t.animation.base_offset as int);
        }
        65_535u16
    } else {
        sum as u16
    };
    let value = t.animation.curve.sample(et);
    AttributeCommand { target: t.target, kind: t.animation.kind, value }
}

/// The view of a freshly created group: idle, no bindings, default
/// playback parameters.
pub open spec fn idle_group() -> GroupView {
    GroupView {
        targets: Seq::empty(),
        state: PlaybackState::Idle,
        loop_mode: LoopMode::Positive(None),
        speed_permille: 1000,
        window_start: 0,
        window_end: 0,
        ticks_per_second: 1000,
        amount: AmountCalc::Identity,
        acc: 0,
    }
}

impl AnimationGroup {
    /// A fresh group: idle, with no bindings.
    pub fn new() -> (g: AnimationGroup)
        ensures
            g@ == idle_group(),
            group_wf(g@),
    {
        proof {
            assert(Seq::<TargetAnimation>::empty().map_values(|t: TargetAnimation| t@)
                =~= Seq::<TargetAnimationView>::empty());
        }
        AnimationGroup {
            targets: Vec::new(),
            state: PlaybackState::Idle,
            loop_mode: LoopMode::Positive(None),
            speed_permille: 1000,
            window_start: 0,
            window_end: 0,
            ticks_per_second: 1000,
            amount: AmountCalc::Identity,
            acc: 0,
        }
    }

    /// Record one more target binding.
    pub fn add_target(&mut self, binding: TargetAnimation)
        requires
            group_wf(old(self)@),
            curve_wf(binding.animation.curve@),
            binding.animation.base_offset <= TICK_LIMIT,
        ensures
            group_wf(final(self)@),
            final(self)@ == (GroupView {
                targets: old(self)@.targets.push(binding@),
                ..old(self)@
            }),
    {
        self.targets.push(binding);
        proof {
            assert(self@.targets =~= old(self)@.targets.push(binding@));
        }
    }

    /// Start playback over the tick window from `window_start` to `window_end`. Valid from
    /// `Idle`, `Stopped`, or `Playing` (a restart); starting a paused group
    /// is reported as an invalid transition and ignored. Progress resets to
    /// the window start.
    pub fn start(
        &mut self,
        speed_permille: u32,
        loop_mode: LoopMode,
        window_start: u16,
        window_end: u16,
        ticks_per_second: u16,
        amount: AmountCalc,
    ) -> (r: Result<(), AnimError>)
        requires
            group_wf(old(self)@),
            window_start < window_end,
            1 <= ticks_per_second,
        ensures
            group_wf(final(self)@),
            old(self)@.state is Paused ==> r == Err::<(), AnimError>(
                AnimError::InvalidStateTransition,
            ) && final(self)@ == old(self)@,
            !(old(self)@.state is Paused) ==> r == Ok::<(), AnimError>(()) && final(self)@
                == (GroupView {
                state: PlaybackState::Playing,
                loop_mode,
                speed_permille: speed_permille as int,
                window_start: window_start as int,
                window_end: window_end as int,
                ticks_per_second: ticks_per_second as int,
                amount,
                acc: 0,
                ..old(self)@
            }),
    {
        if matches!(self.state, PlaybackState::Paused) {
            return Err(AnimError::InvalidStateTransition);
        }
        self.state = PlaybackState::Playing;
        self.loop_mode = loop_mode;
        self.speed_permille = speed_permille;
        self.window_start = window_start;
        self.window_end = window_end;
        self.ticks_per_second = ticks_per_second;
        self.amount = amount;
        self.acc = 0;
        Ok(())
    }

    /// Freeze progress. Valid only from `Playing`.
    pub fn pause(&mut self) -> (r: Result<(), AnimError>)
        requires
            group_wf(old(self)@),
        ensures
            group_wf(final(self)@),
            old(self)@.state is Playing ==> r == Ok::<(), AnimError>(()) && final(self)@
                == (GroupView { state: PlaybackState::Paused, ..old(self)@ }),
            !(old(self)@.state is Playing) ==> r == Err::<(), AnimError>(
                AnimError::InvalidStateTransition,
            ) && final(self)@ == old(self)@,
    {
        if matches!(self.state, PlaybackState::Playing) {
            self.state = PlaybackState::Paused;
            Ok(())
        } else {
            Err(AnimError::InvalidStateTransition)
        }
    }

    /// Continue from frozen progress. Valid only from `Paused`.
    pub fn resume(&mut self) -> (r: Result<(), AnimError>)
        requires
            group_wf(old(self)@),
        ensures
            group_wf(final(self)@),
            old(self)@.state is Paused ==> r == Ok::<(), AnimError>(()) && final(self)@
                == (GroupView { state: PlaybackState::Playing, ..old(self)@ }),
            !(old(self)@.state is Paused) ==> r == Err::<(), AnimError>(
                AnimError::InvalidStateTransition,
            ) && final(self)@ == old(self)@,
    {
        if matches!(self.state, PlaybackState::Paused) {
            self.state = PlaybackState::Playing;
            Ok(())
        } else {
            Err(AnimError::InvalidStateTransition)
        }
    }

    /// Reset to `Idle`; binding evaluation ceases. Valid from any non-idle
    /// state; stopping an idle group is reported and ignored.
    pub fn stop(&mut self) -> (r: Result<(), AnimError>)
        requires
            group_wf(old(self)@),
        ensures
            group_wf(final(self)@),
            !(old(self)@.state is Idle) ==> r == Ok::<(), AnimError>(()) && final(self)@
                == (GroupView { state: PlaybackState::Idle, acc: 0, ..old(self)@ }),
            old(self)@.state is Idle ==> r == Err::<(), AnimError>(
                AnimError::InvalidStateTransition,
            ) && final(self)@ == old(self)@,
    {
        if matches!(self.state, PlaybackState::Idle) {
            Err(AnimError::InvalidStateTransition)
        } else {
            self.state = PlaybackState::Idle;
            self.acc = 0;
            Ok(())
        }
    }

    /// Advance this group by one frame's time budget and append the
    /// commands it emits to `out`. Non-playing groups are untouched and
    /// emit nothing.
    #[verifier::loop_isolation(false)]
    pub fn advance_tick(&mut self, delta_ms: u32, out: &mut Vec<AttributeCommand>)
        requires
            group_wf(old(self)@),
        ensures
            group_wf(final(self)@),
            final(self)@ == group_step(old(self)@, delta_ms as int),
            commands_view(final(out)@) == commands_view(old(out)@) + group_emits(
                old(self)@,
                delta_ms as int,
            ),
    {
        if !matches!(self.state, PlaybackState::Playing) {
            proof {
                assert(commands_view(out@) =~= commands_view(out@) + group_emits(
                    self@,
                    delta_ms as int,
                ));
            }
            return;
        }
        proof {
            assert((delta_ms as int) * (self.ticks_per_second as int) <= 0xFFFF_FFFFint
                * 65_535) by (nonlinear_arith)
                requires
                    0 <= delta_ms <= 0xFFFF_FFFF,
                    0 <= self.ticks_per_second <= 65_535,
            ;
            assert((delta_ms as int) * (self.ticks_per_second as int) * (self.speed_permille
                as int) <= 0xFFFF_FFFFint * 65_535 * 0xFFFF_FFFF) by (nonlinear_arith)
                requires
                    0 <= (delta_ms as int) * (self.ticks_per_second as int) <= 0xFFFF_FFFFint
                        * 65_535,
                    0 <= self.speed_permille <= 0xFFFF_FFFF,
            ;
        }
        let inc: u128 = (delta_ms as u128) * (self.ticks_per_second as u128) * (self.speed_permille
            as u128);
        let sum: u128 = (self.acc as u128) + inc;
        let new_acc: u64 = if sum > u64::MAX as u128 {
            u64::MAX
        } else {
            sum as u64
        };
        self.acc = new_acc;
        let e: u64 = new_acc / 1_000_000;
        let l: u16 = self.window_end - self.window_start;
        let l64: u64 = l as u64;
        proof {
            lemma_mod_division_less_than_divisor(e as int, l64 as int);
        }
        let within: u64 = e % l64;
        let reps: u64 = e / l64;
        let exhausted: bool = match self.loop_mode {
            LoopMode::Positive(c) => match c {
                Some(n) => reps >= n as u64,
                None => false,
            },
            LoopMode::Negative(c) => match c {
                Some(n) => reps >= n as u64,
                None => false,
            },
            LoopMode::PingPong(c) => match c {
                Some(n) => reps >= n as u64,
                None => false,
            },
        };
        let pos: u16 = if exhausted {
            self.state = PlaybackState::Stopped;
            match self.loop_mode {
                LoopMode::Positive(_) => l,
                LoopMode::Negative(_) => 0,
                LoopMode::PingPong(c) => match c {
                    Some(n) => if n % 2 == 1 {
                        l
                    } else {
                        0
                    },
                    None => l,
                },
            }
        } else {
            match self.loop_mode {
                LoopMode::Positive(_) => within as u16,
                LoopMode::Negative(_) => l - within as u16,
                LoopMode::PingPong(_) => if reps % 2 == 0 {
                    within as u16
                } else {
                    l - within as u16
                },
            }
        };
        let tick: u16 = self.window_start + amount_apply(self.amount, pos, l);
        let ghost emitted = group_emits(old(self)@, delta_ms as int);
        proof {
            assert(tick as int == group_tick_after(old(self)@, delta_ms as int));
        }
        let n = self.targets.len();
        proof {
            assert(old(self)@.targets =~= self@.targets);
            assert(emitted.len() == n as int);
        }
        let mut k: usize = 0;
        while k < n
            invariant
                k <= n,
                out@.len() == old(out)@.len() + k,
                forall|i: int| 0 <= i < old(out)@.len() ==> out@[i] == old(out)@[i],
                forall|i: int|
                    old(out)@.len() <= i < old(out)@.len() + k ==> (#[trigger] out@[i])@
                        == emitted[i - old(out)@.len()],
            decreases n - k,
        {
            proof {
                assert(self@.targets[k as int] == self.targets@[k as int]@);
                assert(curve_wf(self@.targets[k as int].animation.curve));
                assert(emitted[k as int] == target_command(
                    self@.targets[k as int],
                    group_tick_after(old(self)@, delta_ms as int),
                ));
            }
            let cmd = eval_target(&self.targets[k], tick);
            out.push(cmd);
            k = k + 1;
        }
        proof {
            assert(commands_view(out@) =~= commands_view(old(out)@) + emitted);
        }
    }
}

} // verus!
