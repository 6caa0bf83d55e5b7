//! Fireworks: particles that rise, drift inward, burst into fragments and fade,
//! each leaving a short tail of past positions.
//!
//! All quantities are fixed-point integers in thousandths: a coordinate of
//! `1000` is one pixel, an alpha of `1000` is fully opaque, and a random draw
//! is a number of thousandths in `0..1000`. Time is a clock reading in
//! nanoseconds, handed in by the caller. Every update exists in two forms:
//! one that is handed the draws it may use, and one that takes fresh draws
//! from nannou's random generator and does what the first does for them.

pub mod units;
pub mod trail;
pub mod particle;
pub mod draws;
pub mod laws;
pub mod scene;
