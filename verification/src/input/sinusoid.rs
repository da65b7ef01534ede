use vstd::prelude::*;

verus! {

/// A sinusoidal source with an amplitude, a period (in nanoseconds) and a
/// phase.  The sine itself is evaluated by the caller, in the sample type's
/// own arithmetic, at the angle `2 * pi * t / period`.
#[derive(Clone, Copy, Debug, PartialEq)]
pub struct Sinusoid<T> {
    amplitude: T,
    period: u128,
    phase: T,
}

impl<T> Sinusoid<T> {
    /// The amplitude.
    pub closed spec fn amplitude_spec(&self) -> T {
        self.amplitude
    }

    /// The period, in nanoseconds.
    pub closed spec fn period_spec(&self) -> u128 {
        self.period
    }

    /// The phase.
    pub closed spec fn phase_spec(&self) -> T {
        self.phase
    }

    /// A sinusoid of the given amplitude, period (in nanoseconds) and phase.
    pub fn new(amplitude: T, period: u128, phase: T) -> (s: Self)
        ensures
            s.amplitude_spec() == amplitude,
            s.period_spec() == period,
            s.phase_spec() == phase,
    {
        Sinusoid { amplitude, period, phase }
    }

    /// The amplitude.
    pub fn amplitude(&self) -> (r: &T)
        ensures
            *r == self.amplitude_spec(),
    {
        &self.amplitude
    }

    /// The period, in nanoseconds.
    pub fn period(&self) -> (r: u128)
        ensures
            r == self.period_spec(),
    {
        self.period
    }

    /// The phase.
    pub fn phase(&self) -> (r: &T)
        ensures
            *r == self.phase_spec(),
    {
        &self.phase
    }
}

} // verus!
