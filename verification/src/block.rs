use crate::signal::SimulationState;
use vstd::prelude::*;

pub mod delay;
pub mod mimo;
pub mod saturation;
pub mod siso;

verus! {

/// A simulation block: it turns an input into an output at each step of a
/// simulation.
pub trait Block {
    type Input;

    type Output;

    /// Computes the output for `input` at the simulation state `sim_state`.
    fn block(&mut self, input: Self::Input, sim_state: SimulationState) -> Self::Output;

    /// The last output, where the block keeps one.
    fn last_output(&self) -> (r: Option<Self::Output>)
        default_ensures
            r is None,
    {
        None
    }

    /// Returns the block to its initial state, where it has one.
    fn reset(&mut self) {
    }
}

} // verus!
