use crate::block::Block;
use crate::signal::SimulationState;
use vstd::prelude::*;

verus! {

/// A source that emits its peak once and its idle value afterwards.
#[derive(Clone, Copy, Debug, PartialEq)]
pub struct Impulse<T> {
    value: Option<T>,
    idle: T,
}

impl<T: Copy> Impulse<T> {
    /// The peak still to be emitted, if it has not been emitted yet.
    pub closed spec fn pending_spec(&self) -> Option<T> {
        self.value
    }

    /// The value emitted once the peak is spent.
    pub closed spec fn idle_spec(&self) -> T {
        self.idle
    }

    /// An impulse that emits `peak` at its first step and `idle` after.
    pub fn new(peak: T, idle: T) -> (i: Self)
        ensures
            i.pending_spec() == Some(peak),
            i.idle_spec() == idle,
    {
        Impulse { value: Some(peak), idle }
    }

    /// Whether the peak has already been emitted.
    pub fn fired(&self) -> (r: bool)
        ensures
            r == self.pending_spec() is None,
    {
        self.value.is_none()
    }
}

impl<T: Copy> Block for Impulse<T> {
    type Input = ();

    type Output = T;

    /// Emits the peak if it is still pending, and the idle value otherwise;
    /// after the call the peak is spent.
    fn block(&mut self, _input: (), _sim_state: SimulationState) -> (r: T)
        ensures
            r == match old(self).pending_spec() {
                Some(peak) => peak,
                None => old(self).idle_spec(),
            },
            final(self).pending_spec() is None,
            final(self).idle_spec() == old(self).idle_spec(),
    {
        match self.value.take() {
            Some(value) => value,
            None => self.idle,
        }
    }
}

} // verus!
