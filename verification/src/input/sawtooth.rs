use crate::signal::SimulationState;
use vstd::prelude::*;

verus! {

/// How far into its current period a periodic signal is at time `t`, as the
/// fraction `(t mod period) / period`; `None` for a zero period, where the
/// fraction is undefined.
pub open spec fn period_fraction(t: u128, period: u128) -> Option<(u128, u128)> {
    if period == 0 {
        None
    } else {
        Some(((t % period) as u128, period))
    }
}

/// A sawtooth repeats itself: the fraction of its period that has elapsed
/// is the same one period later, and it is always below one.
pub proof fn lemma_period_fraction_periodic(t: u128, period: u128)
    requires
        period > 0,
        t + period <= u128::MAX,
    ensures
        period_fraction((t + period) as u128, period) == period_fraction(t, period),
        period_fraction(t, period) matches Some((num, den)) && num < den,
{
    assert((t + period) % (period as int) == (t as int) % (period as int)) by {
        vstd::arithmetic::div_mod::lemma_mod_add_multiples_vanish(t as int, period as int);
    }
}

/// A sawtooth rises at the rate of time through each whole period: the
/// fraction's denominator is the period and its numerator is the time
/// elapsed since the period began (`t` less the whole periods before it),
/// so within one period the numerator grows by exactly as much as the time.
pub proof fn lemma_period_fraction_rises(t1: u128, t2: u128, period: u128)
    requires
        period > 0,
        t1 <= t2,
        t1 / period == t2 / period,
    ensures
        period_fraction(t1, period) matches Some((n1, d1)) && d1 == period && n1 + (t1 / period)
            * period == t1,
        period_fraction(t2, period) matches Some((n2, d2)) && d2 == period && n2 + (t2 / period)
            * period == t2,
        period_fraction(t1, period) matches Some((n1, _)) && period_fraction(t2, period) matches Some((n2, _))
            && n2 - n1 == t2 - t1,
{
    vstd::arithmetic::div_mod::lemma_fundamental_div_mod(t1 as int, period as int);
    vstd::arithmetic::div_mod::lemma_fundamental_div_mod(t2 as int, period as int);
    assert((t1 / period) * period == period * (t1 / period)) by (nonlinear_arith);
    assert((t2 / period) * period == period * (t2 / period)) by (nonlinear_arith);
}

/// A source that rises linearly from `offset` to `offset + amplitude` over
/// each period and then falls back: at fraction `a` of its period it emits
/// `amplitude * a + offset`.  The product and sum are formed by the caller,
/// in the sample type's own arithmetic.
#[derive(Clone, Copy, Debug, PartialEq)]
pub struct Sawtooth<T> {
    amplitude: T,
    period: u128,
    offset: T,
}

impl<T> Sawtooth<T> {
    /// The height of each tooth.
    pub closed spec fn amplitude_spec(&self) -> T {
        self.amplitude
    }

    /// The period, in nanoseconds.
    pub closed spec fn period_spec(&self) -> u128 {
        self.period
    }

    /// The value at the start of each period.
    pub closed spec fn offset_spec(&self) -> T {
        self.offset
    }

    /// A sawtooth of the given amplitude, period (in nanoseconds) and offset.
    pub fn new(amplitude: T, period: u128, offset: T) -> (s: Self)
        ensures
            s.amplitude_spec() == amplitude,
            s.period_spec() == period,
            s.offset_spec() == offset,
    {
        Sawtooth { amplitude, period, offset }
    }

    /// The height of each tooth.
    pub fn amplitude(&self) -> (r: &T)
        ensures
            *r == self.amplitude_spec(),
    {
        &self.amplitude
    }

    /// The period, in nanoseconds.
    pub fn period(&self) -> (r: u128)
        ensures
            r == self.period_spec(),
    {
        self.period
    }

    /// The value at the start of each period.
    pub fn offset(&self) -> (r: &T)
        ensures
            *r == self.offset_spec(),
    {
        &self.offset
    }

    /// The fraction of the current period that has elapsed at the state's
    /// simulated time, as a numerator and a denominator; `None` when the
    /// period is zero.
    pub fn phase_fraction(&self, sim_state: SimulationState) -> (r: Option<(u128, u128)>)
        ensures
            r == period_fraction(sim_state.time_spec(), self.period_spec()),
            self.period_spec() > 0 ==> r == Some(
                ((sim_state.time_spec() % self.period_spec()) as u128, self.period_spec()),
            ),
            self.period_spec() == 0 ==> r is None,
            r matches Some((num, den)) ==> num < den,
    {
        if self.period == 0 {
            None
        } else {
            Some((sim_state.sim_time() % self.period, self.period))
        }
    }
}

} // verus!
