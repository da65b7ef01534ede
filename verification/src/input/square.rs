use crate::signal::SimulationState;
use vstd::prelude::*;

verus! {

/// The two levels of a square wave.
#[derive(Clone, Copy, Debug, PartialEq, Eq)]
pub enum SquareLevel {
    /// First half of each period: the wave emits `amplitude + offset`.
    High,
    /// Second half of each period: the wave emits `offset`.
    Low,
}

/// The level of a square wave of period `period` at time `t`: high during
/// the first half of each period (strictly before its midpoint), low
/// otherwise; always low for a zero period.
pub open spec fn square_level(t: u128, period: u128) -> SquareLevel {
    if period > 0 && 2 * (t % period) < period {
        SquareLevel::High
    } else {
        SquareLevel::Low
    }
}

/// A square wave repeats itself: its level one period later is the same.
pub proof fn lemma_square_level_periodic(t: u128, period: u128)
    requires
        period > 0,
        t + period <= u128::MAX,
    ensures
        square_level((t + period) as u128, period) == square_level(t, period),
{
    assert((t + period) % (period as int) == (t as int) % (period as int)) by {
        vstd::arithmetic::div_mod::lemma_mod_add_multiples_vanish(t as int, period as int);
    }
}

/// A square wave is high exactly during the first half of each period:
/// the level at `t` is high when twice the time elapsed since the period
/// began is below the period, and low from the midpoint on.  Two instants of
/// the same period lie on the same side of the midpoint exactly when their
/// levels agree.
pub proof fn lemma_square_level_halves(t: u128, period: u128)
    requires
        period > 0,
    ensures
        (square_level(t, period) == SquareLevel::High) <==> 2 * (t % period) < period,
        (square_level(t, period) == SquareLevel::Low) <==> 2 * (t % period) >= period,
        t < period ==> ((square_level(t, period) == SquareLevel::High) <==> 2 * t < period),
{
    assert(t < period ==> t % period == t) by {
        if t < period {
            vstd::arithmetic::div_mod::lemma_small_mod(t as nat, period as nat);
        }
    }
}

/// A source that alternates between `amplitude + offset` and `offset`,
/// each for half a period.  The sum is formed by the caller, in the sample
/// type's own arithmetic.
#[derive(Clone, Copy, Debug, PartialEq)]
pub struct Square<T> {
    amplitude: T,
    period: u128,
    offset: T,
}

impl<T> Square<T> {
    /// The height of the high level above the low one.
    pub closed spec fn amplitude_spec(&self) -> T {
        self.amplitude
    }

    /// The period, in nanoseconds.
    pub closed spec fn period_spec(&self) -> u128 {
        self.period
    }

    /// The low level.
    pub closed spec fn offset_spec(&self) -> T {
        self.offset
    }

    /// A square wave of the given amplitude, period (in nanoseconds) and
    /// offset.
    pub fn new(amplitude: T, period: u128, offset: T) -> (s: Self)
        ensures
            s.amplitude_spec() == amplitude,
            s.period_spec() == period,
            s.offset_spec() == offset,
    {
        Square { amplitude, period, offset }
    }

    /// The height of the high level above the low one.
    pub fn amplitude(&self) -> (r: &T)
        ensures
            *r == self.amplitude_spec(),
    {
        &self.amplitude
    }

    /// The period, in nanoseconds.
    pub fn period(&self) -> (r: u128)
        ensures
            r == self.period_spec(),
    {
        self.period
    }

    /// The low level.
    pub fn offset(&self) -> (r: &T)
        ensures
            *r == self.offset_spec(),
    {
        &self.offset
    }

    /// The level of the wave at the state's simulated time.
    pub fn level(&self, sim_state: SimulationState) -> (r: SquareLevel)
        ensures
            r == square_level(sim_state.time_spec(), self.period_spec()),
            self.period_spec() > 0 ==> ((r == SquareLevel::High) <==> 2 * (sim_state.time_spec()
                % self.period_spec()) < self.period_spec()),
            self.period_spec() == 0 ==> r == SquareLevel::Low,
    {
        if self.period == 0 {
            return SquareLevel::Low;
        }
        let into_period = sim_state.sim_time() % self.period;
        if into_period < self.period - self.period / 2 {
            SquareLevel::High
        } else {
            SquareLevel::Low
        }
    }
}

} // verus!
