//! A scene graph of layers whose properties are animated over time.
//!
//! Fractional quantities (scale, opacity, anchor, colour, depth) are held in fixed point:
//! [`UNIT`] parts make one whole. Time is counted in milliseconds.
use vstd::prelude::*;

pub mod actor;
pub mod animation;
pub mod animator;
pub mod easing;
pub mod event;
pub mod focus;
pub mod layer;
pub mod layout;
pub mod path;
pub mod play;
pub mod render;
pub mod solver;
pub mod transform;

verus! {

/// The number of parts that make one whole of a fractional quantity.
pub const UNIT: i32 = 1000;

} // verus!
