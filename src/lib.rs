//! Motion and containment for a small wrap-around arcade play-field.
//!
//! Lengths are micro-pixels, time is milliseconds, velocities are
//! micro-pixels per millisecond and headings are binary angles (a full
//! turn is 2^32), so every step of a tick is exact integer arithmetic.

pub mod motion;
pub mod steering;
pub mod fire;
pub mod spawn;
pub mod friction;
