//! The curve asset cache: sharing, idempotence and the one-writer-per-key
//! rule.

use std::rc::Rc;

use anim_bake::cache::CurveAssetCache;
use anim_bake::ingest::bake_channel;
use anim_bake::AnimError;
use anim_bake::AnimValue;
use anim_bake::AttributeKind;
use anim_bake::ChannelKind;
use anim_bake::Interpolation;

fn v(x: i64, y: i64, z: i64) -> AnimValue {
    AnimValue { x, y, z }
}

#[test]
fn bake_or_fetch_is_idempotent_per_key_and_kind() {
    let mut cache = CurveAssetCache::new();
    let key = String::from("anim0channel0");
    let ticks: Vec<u16> = vec![0, 1000];
    let values = vec![v(0, 0, 0), v(1000, 0, 0)];

    let first = cache
        .bake_or_fetch(&key, ChannelKind::Translation, Interpolation::Linear, &ticks, &values)
        .unwrap();
    let second = cache
        .bake_or_fetch(&key, ChannelKind::Translation, Interpolation::Linear, &ticks, &values)
        .unwrap();
    // Identity, not just equal values: both handles share one allocation.
    assert!(Rc::ptr_eq(&first, &second));

    // The same key under a different attribute kind is an independent entry.
    let other_values = vec![v(500, 500, 500), v(2000, 2000, 2000)];
    let scaled = cache
        .bake_or_fetch(&key, ChannelKind::Scale, Interpolation::Linear, &ticks, &other_values)
        .unwrap();
    assert!(!Rc::ptr_eq(&first, &scaled));
    assert_eq!(scaled.sample(0), v(500, 500, 500));
    // The original entry still answers for its own kind.
    let third = cache
        .bake_or_fetch(&key, ChannelKind::Translation, Interpolation::Linear, &ticks, &values)
        .unwrap();
    assert!(Rc::ptr_eq(&first, &third));
}

#[test]
fn cached_key_skips_rebaking() {
    let mut cache = CurveAssetCache::new();
    let key = String::from("anim3channel1");
    let ticks: Vec<u16> = vec![0, 2000];
    let values = vec![v(0, 0, 0), v(4000, 0, 0)];
    let first = cache
        .bake_or_fetch(&key, ChannelKind::Translation, Interpolation::Linear, &ticks, &values)
        .unwrap();
    // A hit returns the cached curve without reading the source stream:
    // even a malformed stream fetches the existing entry.
    let empty_ticks: Vec<u16> = vec![];
    let empty_values: Vec<AnimValue> = vec![];
    let hit = cache
        .bake_or_fetch(
            &key,
            ChannelKind::Translation,
            Interpolation::Linear,
            &empty_ticks,
            &empty_values,
        )
        .unwrap();
    assert!(Rc::ptr_eq(&first, &hit));
}

#[test]
fn duplicate_key_insert_fails_and_preserves_the_entry() {
    let mut cache = CurveAssetCache::new();
    let key = String::from("anim1channel2");
    let ticks: Vec<u16> = vec![0, 1000];
    let original = bake_channel(
        ChannelKind::Translation,
        Interpolation::Linear,
        &ticks,
        &vec![v(111, 0, 0), v(222, 0, 0)],
    )
    .unwrap()
    .1;
    let replacement = bake_channel(
        ChannelKind::Translation,
        Interpolation::Linear,
        &ticks,
        &vec![v(999, 0, 0), v(888, 0, 0)],
    )
    .unwrap()
    .1;

    cache.insert(key.clone(), AttributeKind::Position, original).unwrap();
    let second = cache.insert(key.clone(), AttributeKind::Position, replacement);
    assert_eq!(second.unwrap_err(), AnimError::DuplicateCurveKey);

    // The first curve is still the cached one, unmodified.
    let cached = cache.fetch(&key, AttributeKind::Position).unwrap();
    assert_eq!(cached.sample(0), v(111, 0, 0));
    assert_eq!(cached.sample(1000), v(222, 0, 0));
}

#[test]
fn fetch_misses_on_unknown_key_and_other_kind() {
    let mut cache = CurveAssetCache::new();
    let key = String::from("anim0channel0");
    let ticks: Vec<u16> = vec![0, 1000];
    let values = vec![v(0, 0, 0), v(1, 1, 1)];
    cache
        .bake_or_fetch(&key, ChannelKind::Rotation, Interpolation::Step, &ticks, &values)
        .unwrap();
    assert!(cache.fetch(&key, AttributeKind::Rotation).is_some());
    assert!(cache.fetch(&key, AttributeKind::Position).is_none());
    assert!(cache.fetch(&String::from("other"), AttributeKind::Rotation).is_none());
}
