//! The items most users of the crate need, for a single glob import.

pub use crate::clip::{KeyframeAnimationClip, KeyframeEntityPath};
pub use crate::curve::{CurveError, CurveState, KeyframeVariableCurve};
pub use crate::evaluation::{keyframe_animation_player, CurveUpdate};
pub use crate::hierarchy::{Hierarchy, HierarchyNode};
pub use crate::lerp::{field_selected, select_field, Keyframe, Lerp, Progress};
pub use crate::player::{KeyframeAnimationPlayer, SPEED_UNIT};
