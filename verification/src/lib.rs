//! Fundamental-frequency estimation over fixed-point sample buffers.
//!
//! The crate mean-centers a sample buffer and lays its transform out
//! as frequency buckets, estimates the fundamental frequency of a signal
//! either spectrally (peak picking over buckets) or in the time domain
//! (autocorrelation), and renders a frequency as a musical pitch label.
//!
//! All quantities are fixed-point integers: frequencies and sample rates
//! are in a caller-chosen unit (for example millihertz), samples and
//! intensities in a caller-chosen amplitude scale.
use vstd::prelude::*;

pub mod autocorrelation;
pub mod pitch;
pub mod spectral;
pub mod spectrum;

verus! {

/// Largest sample buffer (and spectrum) length the estimators accept;
/// keeps every intermediate sum inside `i64`.
pub const MAX_SAMPLES: usize = 65536;

/// Largest sample magnitude the autocorrelation estimator accepts;
/// keeps every product sum inside `i64`.
pub const MAX_AMPLITUDE: i64 = 0x400000;

/// Largest bucket intensity the spectral estimator accepts; keeps the
/// intensity sum inside `u64`.
pub const MAX_INTENSITY: i64 = 0x10000000000;

} // verus!
