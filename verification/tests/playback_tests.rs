//! Playback: the group state machine, loop modes, easing, determinism and
//! finite-loop termination.

use anim_bake::AmountCalc;
use anim_bake::AnimError;
use anim_bake::AnimValue;
use anim_bake::Animation;
use anim_bake::AnimationSystem;
use anim_bake::AttributeCommand;
use anim_bake::ChannelKind;
use anim_bake::Interpolation;
use anim_bake::LoopMode;
use anim_bake::PlaybackState;

fn v(x: i64, y: i64, z: i64) -> AnimValue {
    AnimValue { x, y, z }
}

/// A system with one scene, one group and one linear position channel
/// rising from [0,0,0] at tick 0 to [1000,0,0] at tick 1000.
fn ramp_system(scene: u64, target: u64) -> (AnimationSystem, usize) {
    let mut sys = AnimationSystem::new();
    let ticks: Vec<u16> = vec![0, 1000];
    let values = vec![v(0, 0, 0), v(1000, 0, 0)];
    let curve = sys
        .bake_or_fetch(
            &String::from("ramp"),
            ChannelKind::Translation,
            Interpolation::Linear,
            &ticks,
            &values,
        )
        .unwrap();
    let gid = sys.create_group(scene);
    let animation = Animation::new(curve, anim_bake::AttributeKind::Position);
    sys.add_target_animation(scene, target, gid, animation);
    (sys, gid)
}

#[test]
fn state_machine_accepts_only_valid_transitions() {
    let (mut sys, gid) = ramp_system(7, 40);
    assert_eq!(sys.group_state(7, gid), PlaybackState::Idle);

    // Pausing, resuming or stopping an idle group is invalid.
    assert_eq!(sys.pause(7, gid).unwrap_err(), AnimError::InvalidStateTransition);
    assert_eq!(sys.resume(7, gid).unwrap_err(), AnimError::InvalidStateTransition);
    assert_eq!(sys.stop(7, gid).unwrap_err(), AnimError::InvalidStateTransition);

    sys.start(7, gid, 1000, LoopMode::Positive(None), 0, 1000, 1000, AmountCalc::Identity)
        .unwrap();
    assert_eq!(sys.group_state(7, gid), PlaybackState::Playing);

    // Resuming a playing group is invalid; pausing is valid.
    assert_eq!(sys.resume(7, gid).unwrap_err(), AnimError::InvalidStateTransition);
    sys.pause(7, gid).unwrap();
    assert_eq!(sys.group_state(7, gid), PlaybackState::Paused);

    // Starting or pausing a paused group is invalid; resuming is valid.
    assert_eq!(
        sys.start(7, gid, 1000, LoopMode::Positive(None), 0, 1000, 1000, AmountCalc::Identity)
            .unwrap_err(),
        AnimError::InvalidStateTransition
    );
    assert_eq!(sys.pause(7, gid).unwrap_err(), AnimError::InvalidStateTransition);
    sys.resume(7, gid).unwrap();
    assert_eq!(sys.group_state(7, gid), PlaybackState::Playing);

    // Stopping a playing group resets it to idle; it can be started again.
    sys.stop(7, gid).unwrap();
    assert_eq!(sys.group_state(7, gid), PlaybackState::Idle);
    sys.start(7, gid, 1000, LoopMode::Positive(None), 0, 1000, 1000, AmountCalc::Identity)
        .unwrap();
    assert_eq!(sys.group_state(7, gid), PlaybackState::Playing);
}

#[test]
fn playing_group_emits_and_others_do_not() {
    let (mut sys, gid) = ramp_system(1, 50);
    // Idle: advancing emits nothing.
    sys.advance(100);
    assert!(sys.drain_commands().is_empty());

    sys.start(1, gid, 1000, LoopMode::Positive(None), 0, 1000, 1000, AmountCalc::Identity)
        .unwrap();
    sys.advance(250);
    let cmds = sys.drain_commands();
    assert_eq!(cmds.len(), 1);
    assert_eq!(cmds[0].target, 50);
    assert_eq!(cmds[0].value, v(250, 0, 0));

    // Paused: progress frozen, nothing emitted.
    sys.pause(1, gid).unwrap();
    sys.advance(500);
    assert!(sys.drain_commands().is_empty());

    // Resumed: continues from the frozen progress.
    sys.resume(1, gid).unwrap();
    sys.advance(0);
    let after = sys.drain_commands();
    assert_eq!(after.len(), 1);
    assert_eq!(after[0].value, v(250, 0, 0));
}

#[test]
fn playback_is_deterministic_across_runs() {
    let deltas: Vec<u32> = vec![16, 33, 250, 0, 777, 16];
    let mut first_run: Vec<AttributeCommand> = Vec::new();
    let mut second_run: Vec<AttributeCommand> = Vec::new();
    for out in [&mut first_run, &mut second_run] {
        let (mut sys, gid) = ramp_system(3, 9);
        sys.start(3, gid, 1000, LoopMode::Positive(None), 0, 1000, 1000, AmountCalc::Identity)
            .unwrap();
        for d in &deltas {
            sys.advance(*d);
        }
        *out = sys.drain_commands();
    }
    assert_eq!(first_run, second_run);
    assert_eq!(first_run.len(), 6);
}

#[test]
fn finite_loop_stops_and_holds_the_window_end() {
    let (mut sys, gid) = ramp_system(2, 60);
    sys.start(2, gid, 1000, LoopMode::Positive(Some(2)), 0, 1000, 1000, AmountCalc::Identity)
        .unwrap();

    // First pass and wrap into the second.
    sys.advance(1000);
    assert_eq!(sys.group_state(2, gid), PlaybackState::Playing);
    sys.advance(999);
    assert_eq!(sys.group_state(2, gid), PlaybackState::Playing);
    let during = sys.drain_commands();
    assert_eq!(during.len(), 2);
    assert_eq!(during[0].value, v(0, 0, 0));
    assert_eq!(during[1].value, v(999, 0, 0));

    // Cumulative progress reaches two window lengths: the group stops and
    // the last emitted value is the curve's value at the window end.
    sys.advance(1);
    assert_eq!(sys.group_state(2, gid), PlaybackState::Stopped);
    let last = sys.drain_commands();
    assert_eq!(last.len(), 1);
    assert_eq!(last[0].value, v(1000, 0, 0));

    // A stopped group emits nothing further.
    sys.advance(500);
    assert!(sys.drain_commands().is_empty());
}

#[test]
fn negative_loop_plays_backwards() {
    let (mut sys, gid) = ramp_system(4, 70);
    sys.start(4, gid, 1000, LoopMode::Negative(None), 0, 1000, 1000, AmountCalc::Identity)
        .unwrap();
    sys.advance(250);
    let cmds = sys.drain_commands();
    assert_eq!(cmds.len(), 1);
    assert_eq!(cmds[0].value, v(750, 0, 0));
}

#[test]
fn ping_pong_reflects_on_the_second_pass() {
    let (mut sys, gid) = ramp_system(5, 80);
    sys.start(5, gid, 1000, LoopMode::PingPong(None), 0, 1000, 1000, AmountCalc::Identity)
        .unwrap();
    sys.advance(400);
    sys.advance(800);  // cumulative 1200: second pass, reflected at 800
    let cmds = sys.drain_commands();
    assert_eq!(cmds.len(), 2);
    assert_eq!(cmds[0].value, v(400, 0, 0));
    assert_eq!(cmds[1].value, v(800, 0, 0));
}

#[test]
fn speed_scales_progress() {
    let (mut sys, gid) = ramp_system(6, 90);
    // Half speed: 500 ms advances 250 ticks.
    sys.start(6, gid, 500, LoopMode::Positive(None), 0, 1000, 1000, AmountCalc::Identity)
        .unwrap();
    sys.advance(500);
    let cmds = sys.drain_commands();
    assert_eq!(cmds[0].value, v(250, 0, 0));
}

#[test]
fn ease_in_quad_remaps_progress() {
    let (mut sys, gid) = ramp_system(8, 95);
    sys.start(8, gid, 1000, LoopMode::Positive(None), 0, 1000, 1000, AmountCalc::EaseInQuad)
        .unwrap();
    // Halfway through the window, quadratic ease-in sits at a quarter.
    sys.advance(500);
    let cmds = sys.drain_commands();
    assert_eq!(cmds[0].value, v(250, 0, 0));
}

#[test]
fn groups_advance_in_creation_order_within_a_tick() {
    let mut sys = AnimationSystem::new();
    let ticks: Vec<u16> = vec![0, 1000];
    let values = vec![v(0, 0, 0), v(1000, 0, 0)];
    let curve = sys
        .bake_or_fetch(
            &String::from("ramp"),
            ChannelKind::Translation,
            Interpolation::Linear,
            &ticks,
            &values,
        )
        .unwrap();
    let g0 = sys.create_group(11);
    let g1 = sys.create_group(11);
    let a0 = Animation::new(curve.clone(), anim_bake::AttributeKind::Position);
    let a1 = Animation::new(curve, anim_bake::AttributeKind::Position);
    sys.add_target_animation(11, 100, g0, a0);
    sys.add_target_animation(11, 200, g1, a1);
    sys.start(11, g0, 1000, LoopMode::Positive(None), 0, 1000, 1000, AmountCalc::Identity)
        .unwrap();
    sys.start(11, g1, 1000, LoopMode::Positive(None), 0, 1000, 1000, AmountCalc::Identity)
        .unwrap();
    sys.advance(300);
    let cmds = sys.drain_commands();
    assert_eq!(cmds.len(), 2);
    assert_eq!(cmds[0].target, 100);
    assert_eq!(cmds[1].target, 200);
    assert_eq!(cmds[0].value, cmds[1].value);
}
