use crate::block::Block;
use crate::signal::SimulationState;
use core::cmp::Ordering;
use vstd::prelude::*;
use vstd::laws_cmp::obeys_partial_cmp_spec_properties;
use vstd::std_specs::cmp::PartialOrdSpec;

verus! {

/// `a` is ordered strictly before `b`.
pub open spec fn ordered_before<T: PartialOrd>(a: T, b: T) -> bool {
    a.partial_cmp_spec(&b) == Some(Ordering::Less)
}

/// `a` is ordered strictly after `b`.
pub open spec fn ordered_after<T: PartialOrd>(a: T, b: T) -> bool {
    a.partial_cmp_spec(&b) == Some(Ordering::Greater)
}

/// `x` limited to the range from `min` to `max`.
pub open spec fn clamped<T: PartialOrd>(x: T, min: T, max: T) -> T {
    if ordered_before(x, min) {
        min
    } else if ordered_after(x, max) {
        max
    } else {
        x
    }
}

/// A saturated value never lies outside its limits: for an order that
/// behaves as an order (what lies before `b` has `b` after it), and limits
/// that do not form an empty range, the clamped value is neither before
/// `min` nor after `max`.
pub proof fn lemma_clamped_within_limits<T: PartialOrd>(x: T, min: T, max: T)
    requires
        obeys_partial_cmp_spec_properties::<T>(),
        !ordered_after(min, max),
    ensures
        !ordered_before(clamped(x, min, max), min),
        !ordered_after(clamped(x, min, max), max),
{
    reveal(obeys_partial_cmp_spec_properties);
    assert(ordered_before(min, min) ==> ordered_after(min, min));
    assert(ordered_after(max, max) ==> ordered_before(max, max));
    assert(ordered_before(max, min) ==> ordered_after(min, max));
}

/// Saturating twice changes nothing more than saturating once: a value
/// already within the limits passes unchanged.
pub proof fn lemma_clamped_idempotent<T: PartialOrd>(x: T, min: T, max: T)
    requires
        obeys_partial_cmp_spec_properties::<T>(),
        !ordered_after(min, max),
    ensures
        clamped(clamped(x, min, max), min, max) == clamped(x, min, max),
{
    lemma_clamped_within_limits(x, min, max);
}

/// What saturation does to each input: one ordered before the lower limit
/// becomes the lower limit, one ordered after the upper limit becomes the
/// upper limit, and one within the limits passes unchanged.
pub proof fn lemma_clamped_cases<T: PartialOrd>(x: T, min: T, max: T)
    requires
        obeys_partial_cmp_spec_properties::<T>(),
        !ordered_after(min, max),
    ensures
        ordered_before(x, min) ==> clamped(x, min, max) == min,
        ordered_after(x, max) ==> clamped(x, min, max) == max,
        !ordered_before(x, min) && !ordered_after(x, max) ==> clamped(x, min, max) == x,
{
    reveal(obeys_partial_cmp_spec_properties);
    if ordered_after(x, max) && ordered_before(x, min) {
        assert(ordered_after(min, x));
    }
}

/// A block that limits its input to a range.
pub struct Saturation<T> {
    min: T,
    max: T,
    last_output: Option<T>,
}

impl<T: Ord + Copy> Saturation<T> {
    /// The lower limit.
    pub closed spec fn min_spec(&self) -> T {
        self.min
    }

    /// The upper limit.
    pub closed spec fn max_spec(&self) -> T {
        self.max
    }

    /// The last output, if there was one.
    pub closed spec fn last_spec(&self) -> Option<T> {
        self.last_output
    }

    /// A saturation block limiting to the range from `min` to `max`, which
    /// must not be empty.
    pub fn new(min: T, max: T) -> (s: Self)
        requires
            !ordered_after(min, max),
        ensures
            s.min_spec() == min,
            s.max_spec() == max,
            s.last_spec() is None,
    {
        Saturation { min, max, last_output: None }
    }

    /// The lower limit.
    pub fn min(&self) -> (r: T)
        ensures
            r == self.min_spec(),
    {
        self.min
    }

    /// The upper limit.
    pub fn max(&self) -> (r: T)
        ensures
            r == self.max_spec(),
    {
        self.max
    }
}

impl<T: Ord + Copy> Block for Saturation<T> {
    type Input = T;

    type Output = T;

    /// Limits `input` to the range; the result is also kept as the last
    /// output.
    fn block(&mut self, input: T, _sim_state: SimulationState) -> (r: T)
        ensures
            T::obeys_partial_cmp_spec() ==> r == clamped(input, old(self).min_spec(), old(self).max_spec()),
            T::obeys_partial_cmp_spec() && !ordered_before(input, old(self).min_spec())
                && !ordered_after(input, old(self).max_spec()) ==> r == input,
            T::obeys_partial_cmp_spec() && ordered_before(input, old(self).min_spec()) ==> r == old(
                self,
            ).min_spec(),
            r == input || r == old(self).min_spec() || r == old(self).max_spec(),
            final(self).min_spec() == old(self).min_spec(),
            final(self).max_spec() == old(self).max_spec(),
            final(self).last_spec() == Some(r),
    {
        let value = if input < self.min {
            self.min
        } else if input > self.max {
            self.max
        } else {
            input
        };
        self.last_output = Some(value);
        value
    }

    /// The last output, if there was one.
    fn last_output(&self) -> (r: Option<T>)
        ensures
            r == self.last_spec(),
    {
        self.last_output
    }
}

} // verus!
