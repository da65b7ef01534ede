use crate::block::Block;
use crate::signal::SimulationState;
use vstd::prelude::*;

verus! {

/// A source that emits the same value at every step.
#[derive(Clone, Copy, Debug, PartialEq)]
pub struct Step<T> {
    value: T,
}

impl<T: Copy> Step<T> {
    /// The value emitted.
    pub closed spec fn value_spec(&self) -> T {
        self.value
    }

    /// A step of height `value`.
    pub fn new(value: T) -> (s: Self)
        ensures
            s.value_spec() == value,
    {
        Step { value }
    }

    /// The value emitted.
    pub fn value(&self) -> (r: T)
        ensures
            r == self.value_spec(),
    {
        self.value
    }
}

impl<T: Copy> Block for Step<T> {
    type Input = ();

    type Output = T;

    /// Emits the step's value, whatever the simulation state.
    fn block(&mut self, _input: (), _sim_state: SimulationState) -> (r: T)
        ensures
            r == old(self).value_spec(),
            final(self).value_spec() == old(self).value_spec(),
    {
        self.value
    }
}

} // verus!
