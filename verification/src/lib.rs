//! A real-time peak limiter, verified.
//!
//! The limiter holds the amplitude of a stream of interleaved samples under
//! a ceiling: a transient above the ceiling drops the gain at once, and the
//! gain then recovers toward one by a one-pole filter.
//!
//! Samples, gains and settings are single-precision numbers, handled here as
//! their 32-bit patterns. Whatever the limiter decides (whether a value is
//! finite, which of two is larger, when to attack and when to release, which
//! path a block takes, which gain it leaves behind) is decided on those
//! patterns, in integer code. What has to be rounded is asked of an
//! arithmetic unit that the caller supplies, and each contract says which
//! results of the unit went where.
//!
//! - [`binary32`]: what a pattern stands for, and the order of the numbers.
//! - [`arithmetic`]: the requests that go to the arithmetic unit.
//! - [`rounding`]: what a unit that rounds well lets one conclude.
//! - [`params`]: correction of settings into their ranges.
//! - [`coefficients`]: decibels to linear gain, release time to coefficient.
//! - [`gain`]: the gain smoother.
//! - [`limiter`]: the instance, its creation and its settings.
//! - [`frame`]: one frame under a gain.
//! - [`block`]: one block along one signal path.
//! - [`process`]: one block through the limiter, whichever path it takes.

pub mod arithmetic;
pub mod binary32;
pub mod block;
pub mod coefficients;
pub mod frame;
pub mod gain;
pub mod limiter;
pub mod params;
pub mod process;
pub mod rounding;
