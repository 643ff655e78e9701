//! A fixed-step arcade simulation: a player ship, shots, and drifting rocks
//! on a toroidal 2D playfield, with collision detection, scoring and level
//! progression. All state is carried in fixed-point integer units
//! (milli-pixels for space, milliradians for angles, 1/60-second ticks for
//! time), so every per-tick transform has an exact contract.

pub mod vecmath;
pub mod trig;
pub mod actor;
pub mod spawner;
pub mod world;

use vstd::prelude::*;

verus! {

/// Fixed-point scale: one pixel is `SCALE` milli-pixels, and a unit direction
/// vector has components scaled by `SCALE`.
pub const SCALE: i64 = 1000;

/// Logical simulation rate: ticks per second. Every per-tick transform
/// advances time by exactly one tick, 1/60 of a second.
pub const TICKS_PER_SECOND: i64 = 60;

} // verus!

