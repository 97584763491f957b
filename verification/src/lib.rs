//! Sample-by-sample signal processing primitives for allocation-free audio code.
//!
//! The crate holds the parts that are pure index arithmetic: the circular
//! delay buffer that the delay-based filters share, together with its
//! mathematical model and the laws that hold of it, and the list of
//! waveforms that an oscillator can be asked for.

pub mod delay;
pub mod delay_model;
pub mod synthesis;
