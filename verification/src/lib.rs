//! Bakes sparsely-sampled keyframe animation data into fixed-resolution
//! interpolation curves, caches them as shared assets, binds them to scene
//! targets through named animation groups, and drives per-frame playback.
//!
//! Values are carried as fixed-point integers (milli-units); the surrounding
//! loader converts floating-point source data at the boundary. Time is
//! measured in ticks of one millisecond of source time, so a `u16` tick index
//! caps a curve at 65.535 seconds — an explicit design limit.

pub mod cache;
pub mod curve;
pub mod errors;
pub mod group;
pub mod ingest;
pub mod laws;
pub mod system;
pub mod value;

pub use cache::CurveAssetCache;
pub use curve::FrameCurve;
pub use curve::Interpolation;
pub use curve::Keyframe;
pub use errors::AnimError;
pub use group::AmountCalc;
pub use group::Animation;
pub use group::AttributeCommand;
pub use group::LoopMode;
pub use group::PlaybackState;
pub use group::TargetAnimation;
pub use ingest::AttributeKind;
pub use ingest::ChannelKind;
pub use system::AnimationSystem;
pub use value::AnimValue;
