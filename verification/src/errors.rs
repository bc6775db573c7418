//! Error taxonomy of the animation core. Each variant names the only
//! condition under which it is produced.

use vstd::prelude::*;

verus! {

/// Failures surfaced by ingest, caching and playback control.
#[derive(Clone, Copy, Debug, PartialEq, Eq, Structural)]
pub enum AnimError {
    /// The source channel drives an output the system does not model
    /// (for example morph-target weights).
    UnsupportedChannelKind,
    /// A curve was inserted twice under the same key and attribute kind.
    DuplicateCurveKey,
    /// The keyframe stream was empty, its timestamps were not strictly
    /// increasing, or its value count did not match its timestamp count
    /// (three values per timestamp for cubic-spline streams).
    MalformedKeyframeStream,
    /// A playback-control call was made in a state it is not valid from.
    InvalidStateTransition,
}

} // verus!
