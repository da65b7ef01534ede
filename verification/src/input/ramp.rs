use vstd::prelude::*;

verus! {

/// A source whose output grows in proportion to the simulated time: at time
/// `t` seconds it emits `slope * t`.  The product is formed by the caller,
/// in the sample type's own arithmetic.
#[derive(Clone, Copy, Debug, PartialEq)]
pub struct Ramp<T> {
    value: T,
}

impl<T: Copy> Ramp<T> {
    /// The slope: the value reached after one second.
    pub closed spec fn slope_spec(&self) -> T {
        self.value
    }

    /// A ramp of slope `value` per second.
    pub fn new(value: T) -> (r: Self)
        ensures
            r.slope_spec() == value,
    {
        Ramp { value }
    }

    /// The slope: the value reached after one second.
    pub fn slope(&self) -> (r: T)
        ensures
            r == self.slope_spec(),
    {
        self.value
    }
}

} // verus!
