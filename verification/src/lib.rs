//! A two-line cross-feedback delay effect in fixed-point arithmetic.
//!
//! The crate holds the computing core of the effect: the gain laws, the
//! per-block automation sampler, the ring-buffer delay line with fractional
//! taps, and the feedback-matrix processor that runs a block of audio through
//! two coupled lines. Every function carries a contract over a mathematical
//! model of its data.

pub mod automation;
pub mod delay;
pub mod delay_line;
pub mod fixed;
pub mod response;
pub mod utils;

pub use automation::{
    fold_polarity, sample_db_gains, sample_delay_times, sample_identity, sample_knob_gains,
    time_to_samples, TimeUnit,
};
pub use delay::{
    buffer_capacity, inject, mix, BlockCurves, Delay, DelayView, ProcessStatus, GUARD_SAMPLES,
    MAX_DELAY_TIME_MS,
};
pub use delay_line::{DelayLine, LineView};
pub use fixed::{saturate, scale, scale_difference, scale_exact, ONE, UNIT};
pub use utils::{convex, db_to_gain, db_to_percent_gain, factor_sign, knob_gain};
