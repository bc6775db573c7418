//! Curve baking and evaluation: the three interpolation strategies and the
//! ingest error taxonomy.

use anim_bake::curve::FrameCurve;
use anim_bake::ingest::bake_channel;
use anim_bake::AnimValue;
use anim_bake::AnimError;
use anim_bake::AttributeKind;
use anim_bake::ChannelKind;
use anim_bake::Interpolation;

fn v(x: i64, y: i64, z: i64) -> AnimValue {
    AnimValue { x, y, z }
}

fn bake(
    kind: ChannelKind,
    interpolation: Interpolation,
    ticks: Vec<u16>,
    values: Vec<AnimValue>,
) -> Result<(AttributeKind, FrameCurve), AnimError> {
    bake_channel(kind, interpolation, &ticks, &values)
}

#[test]
fn linear_endpoints_and_midpoint() {
    let (attr, curve) = bake(
        ChannelKind::Translation,
        Interpolation::Linear,
        vec![100, 300],
        vec![v(0, -400, 1000), v(1000, 600, 1000)],
    )
    .unwrap();
    assert_eq!(attr, AttributeKind::Position);
    assert_eq!(curve.sample(100), v(0, -400, 1000));
    assert_eq!(curve.sample(300), v(1000, 600, 1000));
    // Midpoint of the window: the arithmetic mean, component-wise.
    assert_eq!(curve.sample(200), v(500, 100, 1000));
    // Quarter point.
    assert_eq!(curve.sample(150), v(250, -150, 1000));
}

#[test]
fn linear_holds_outside_window() {
    let (_, curve) = bake(
        ChannelKind::Scale,
        Interpolation::Linear,
        vec![500, 600],
        vec![v(2000, 2000, 2000), v(3000, 3000, 3000)],
    )
    .unwrap();
    assert_eq!(curve.sample(0), v(2000, 2000, 2000));
    assert_eq!(curve.sample(499), v(2000, 2000, 2000));
    assert_eq!(curve.sample(600), v(3000, 3000, 3000));
    assert_eq!(curve.sample(65535), v(3000, 3000, 3000));
}

#[test]
fn step_holds_each_value_without_interpolation() {
    let (_, curve) = bake(
        ChannelKind::Translation,
        Interpolation::Step,
        vec![0, 1000, 2000],
        vec![v(10, 0, 0), v(20, 0, 0), v(30, 0, 0)],
    )
    .unwrap();
    assert_eq!(curve.sample(0), v(10, 0, 0));
    assert_eq!(curve.sample(1), v(10, 0, 0));
    assert_eq!(curve.sample(999), v(10, 0, 0));
    assert_eq!(curve.sample(1000), v(20, 0, 0));
    assert_eq!(curve.sample(1999), v(20, 0, 0));
    assert_eq!(curve.sample(2000), v(30, 0, 0));
    assert_eq!(curve.sample(9999), v(30, 0, 0));
}

#[test]
fn cubic_passes_through_keyframes() {
    // Triples are (in-tangent, value, out-tangent) per timestamp; the
    // tangents are deliberately nonzero so interior ticks do curve.
    let (_, curve) = bake(
        ChannelKind::Rotation,
        Interpolation::CubicSpline,
        vec![0, 1000, 2000],
        vec![
            v(7, 7, 7),
            v(100, 200, 300),
            v(2, 2, 2),
            v(-3, -3, -3),
            v(400, 500, 600),
            v(5, 5, 5),
            v(9, 9, 9),
            v(-700, -800, -900),
            v(11, 11, 11),
        ],
    )
    .unwrap();
    assert_eq!(curve.sample(0), v(100, 200, 300));
    assert_eq!(curve.sample(1000), v(400, 500, 600));
    assert_eq!(curve.sample(2000), v(-700, -800, -900));
}

#[test]
fn cubic_interior_value_is_exact_hermite() {
    // One segment of 1000 ticks from 0 to 1000 milli-units, out-tangent 2
    // and in-tangent 0 milli-units per tick. At the segment midpoint the
    // Hermite basis gives 0.5*v0 + 0.125*d*m0 + 0.5*v1 - 0.125*d*m1 = 750.
    let (_, curve) = bake(
        ChannelKind::Translation,
        Interpolation::CubicSpline,
        vec![0, 1000],
        vec![
            v(0, 0, 0),
            v(0, 0, 0),
            v(2, 0, 0),
            v(0, 0, 0),
            v(1000, 0, 0),
            v(0, 0, 0),
        ],
    )
    .unwrap();
    assert_eq!(curve.sample(500), v(750, 0, 0));
}

#[test]
fn morph_target_weights_are_unsupported() {
    let r = bake(
        ChannelKind::MorphTargetWeights,
        Interpolation::Linear,
        vec![0, 1000],
        vec![v(0, 0, 0), v(1, 1, 1)],
    );
    assert_eq!(r.unwrap_err(), AnimError::UnsupportedChannelKind);
}

#[test]
fn empty_stream_is_malformed() {
    let r = bake(ChannelKind::Translation, Interpolation::Linear, vec![], vec![]);
    assert_eq!(r.unwrap_err(), AnimError::MalformedKeyframeStream);
}

#[test]
fn non_monotonic_timestamps_are_malformed() {
    let r = bake(
        ChannelKind::Translation,
        Interpolation::Linear,
        vec![0, 1000, 1000],
        vec![v(0, 0, 0), v(1, 1, 1), v(2, 2, 2)],
    );
    assert_eq!(r.unwrap_err(), AnimError::MalformedKeyframeStream);
}

#[test]
fn tangent_count_mismatch_is_malformed() {
    // Cubic-spline streams need three values per timestamp.
    let r = bake(
        ChannelKind::Translation,
        Interpolation::CubicSpline,
        vec![0, 1000],
        vec![v(0, 0, 0), v(1, 1, 1), v(2, 2, 2), v(3, 3, 3)],
    );
    assert_eq!(r.unwrap_err(), AnimError::MalformedKeyframeStream);
    // Plain streams need exactly one value per timestamp.
    let r2 = bake(
        ChannelKind::Translation,
        Interpolation::Linear,
        vec![0, 1000],
        vec![v(0, 0, 0)],
    );
    assert_eq!(r2.unwrap_err(), AnimError::MalformedKeyframeStream);
}

#[test]
fn single_keyframe_curve_is_constant() {
    let (_, curve) = bake(
        ChannelKind::Scale,
        Interpolation::Linear,
        vec![700],
        vec![v(123, 456, 789)],
    )
    .unwrap();
    assert_eq!(curve.frame_count(), 1);
    assert_eq!(curve.sample(0), v(123, 456, 789));
    assert_eq!(curve.sample(700), v(123, 456, 789));
    assert_eq!(curve.sample(65535), v(123, 456, 789));
}
