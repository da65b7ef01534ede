//! Test-signal sources.  Each one is a block without input; the time logic
//! (which phase a periodic signal is in, how far into its period it is)
//! is computed here from the simulated time in nanoseconds.

pub mod file_samples;
pub mod impulse;
pub mod ramp;
pub mod sawtooth;
pub mod sinusoid;
pub mod square;
pub mod step;

use crate::signal::Signal;
use vstd::prelude::*;

verus! {

/// A source driven by the time step alone, for sources that users write
/// themselves.
pub trait Input {
    type Output;

    /// Advances the source by `dt` nanoseconds and returns its sample.
    fn output(&mut self, dt: u128) -> Signal<Self::Output>;
}

} // verus!
