//! Sampling/statistics engine for analog input devices.
//!
//! The engine keeps, per device, a bounded log of timestamped axis samples,
//! an incremental polling-rate (frequency) estimator, and a pair of
//! angular-error accumulators (one per analog stick). A high-rate sampler
//! feeds samples in; a low-rate publisher reads the last derived result.
//!
//! All derived statistics are exact rationals ([`ratio::Ratio`]); a host
//! converts them to floating point only at its presentation edge. Likewise,
//! angles enter the engine as fixed-point radians: computing an arctangent
//! or a square root of a float is the host's business, while every decision
//! taken on those values is made, and verified, here.

use vstd::prelude::*;

pub mod bins;
pub mod direction;
pub mod engine;
pub mod estimator;
pub mod input;
pub mod math;
pub mod memo;
pub mod ratio;
pub mod sample;
pub mod scheduler;

verus! {

/// Default bound on a device's sample log.
pub const DEFAULT_LOG_SIZE: usize = 2000;

/// A derived result is recomputed whenever the log length is a multiple of this.
pub const CALCULATE_INTERVAL: usize = 100;

/// Theoretical maximum stick radius (the full positive range of one axis).
pub const MAX_R: u64 = 32767;

/// Decimal digits kept when quantizing an angle into a direction bucket.
pub const DEFAULT_DIR_PRECISION: u32 = 0;

} // verus!
