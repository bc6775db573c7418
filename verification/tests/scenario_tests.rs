//! End-to-end: ingest a three-keyframe linear position channel from
//! floating-point source data, bake it at 1000 ticks per second, bind it to
//! a target in a group on a scene, play, and check the emitted value.

use anim_bake::AmountCalc;
use anim_bake::AnimValue;
use anim_bake::Animation;
use anim_bake::AnimationSystem;
use anim_bake::AttributeKind;
use anim_bake::ChannelKind;
use anim_bake::Interpolation;
use anim_bake::LoopMode;

/// Source seconds to ticks, as the loader converts them.
fn tick_of_seconds(seconds: f32) -> u16 {
    (seconds * 1000.0).round() as u16
}

/// Source units to fixed-point milli-units, as the loader converts them.
fn milli_of(value: f32) -> i64 {
    (value * 1000.0).round() as i64
}

fn value_of(raw: [f32; 3]) -> AnimValue {
    AnimValue { x: milli_of(raw[0]), y: milli_of(raw[1]), z: milli_of(raw[2]) }
}

#[test]
fn three_keyframe_linear_channel_end_to_end() {
    let source: [(f32, [f32; 3]); 3] =
        [(0.0, [0.0, 0.0, 0.0]), (1.0, [1.0, 0.0, 0.0]), (2.0, [1.0, 1.0, 0.0])];

    let ticks: Vec<u16> = source.iter().map(|(t, _)| tick_of_seconds(*t)).collect();
    let values: Vec<AnimValue> = source.iter().map(|(_, raw)| value_of(*raw)).collect();

    let scene: u64 = 1;
    let target: u64 = 42;
    let mut sys = AnimationSystem::new();
    let curve = sys
        .bake_or_fetch(
            &String::from("anim0channel0"),
            ChannelKind::Translation,
            Interpolation::Linear,
            &ticks,
            &values,
        )
        .unwrap();
    let group = sys.create_group(scene);
    sys.add_target_animation(scene, target, group, Animation::new(curve, AttributeKind::Position));
    sys.start(
        scene,
        group,
        1000,
        LoopMode::Positive(None),
        0,
        2000,
        1000,
        AmountCalc::Identity,
    )
    .unwrap();

    sys.advance(500);
    sys.advance(500);
    sys.advance(500);

    let cmds = sys.drain_commands();
    assert_eq!(cmds.len(), 3);
    let last = cmds[2];
    assert_eq!(last.target, target);
    assert_eq!(last.kind, AttributeKind::Position);
    // 1500 ms in: halfway between the second and third keyframes.
    assert_eq!(last.value, AnimValue { x: 1000, y: 500, z: 0 });
}
