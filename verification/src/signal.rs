use vstd::prelude::*;

verus! {

/// A sample of a signal: its value and the time step (in nanoseconds)
/// that elapsed since the previous sample.
#[derive(Clone, Copy, Debug)]
pub struct Signal<T> {
    pub value: T,
    pub dt: u128,
}

impl<T> Signal<T> {
    /// A sample with the given value and time step.
    pub fn new(value: T, dt: u128) -> (s: Self)
        ensures
            s.value == value,
            s.dt == dt,
    {
        Signal { value, dt }
    }
}

/// The state of a running simulation: the simulated time reached so far and
/// the step that led to it, both in nanoseconds.
#[derive(Clone, Copy, Debug)]
pub struct SimulationState {
    sim_time: u128,
    dt: u128,
}

impl SimulationState {
    /// The simulated time, in nanoseconds.
    pub closed spec fn time_spec(&self) -> u128 {
        self.sim_time
    }

    /// The last time step, in nanoseconds.
    pub closed spec fn dt_spec(&self) -> u128 {
        self.dt
    }

    /// A state at simulated time `sim_time` reached by a step of `dt`.
    pub fn new(sim_time: u128, dt: u128) -> (s: Self)
        ensures
            s.time_spec() == sim_time,
            s.dt_spec() == dt,
    {
        SimulationState { sim_time, dt }
    }

    /// The simulated time, in nanoseconds.
    pub fn sim_time(&self) -> (t: u128)
        ensures
            t == self.time_spec(),
    {
        self.sim_time
    }

    /// The last time step, in nanoseconds.
    pub fn dt(&self) -> (d: u128)
        ensures
            d == self.dt_spec(),
    {
        self.dt
    }
}

} // verus!
