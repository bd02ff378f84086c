//! Keyframe animation: curves of timestamped keyframes, clips that group them
//! by entity path, and a player that advances time and evaluates a clip.
//!
//! - `lerp`: the interpolation capability that animated value types provide,
//!   and the rule by which a curve's options select the fields it writes.
//! - `curve`: keyframe curves, and where a curve stands at a given time.
//! - `clip`: curves grouped by entity path, with the clip's duration.
//! - `hierarchy`: entities by name, and the lookup of a path below a root.
//! - `player`: playback state (pause, repeat, speed, elapsed time).
//! - `evaluation`: one tick of a player on one animated value.
//!
//! Time is measured in whole microseconds (`i64`), and playback speed in
//! thousandths of real time, so that every step of the evaluation is exact.

pub mod clip;
pub mod curve;
pub mod evaluation;
pub mod hierarchy;
pub mod lerp;
pub mod player;
pub mod prelude;

pub use clip::{KeyframeAnimationClip, KeyframeEntityPath};
pub use curve::{CurveError, CurveState, KeyframeVariableCurve};
pub use evaluation::{keyframe_animation_player, CurveUpdate};
pub use hierarchy::{Hierarchy, HierarchyNode};
pub use lerp::{field_selected, select_field, Keyframe, Lerp, Progress};
pub use player::KeyframeAnimationPlayer;
