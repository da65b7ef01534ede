//! Verified core of a control-systems toolkit: the delay line, the
//! saturation block, the time logic of the test-signal sources and the
//! search routines used by step-response identification.
//!
//! Time is measured in whole nanoseconds (`u128`); sample values are kept
//! generic, so that the floating-point arithmetic that combines them stays
//! with the caller.

pub mod block;
pub mod signal;
pub mod input;
pub mod identification;
pub mod discrete;
