use crate::signal::Signal;
use vstd::prelude::*;

verus! {

/// A single-input, single-output block driven one sample at a time: it
/// takes samples of `Signal<T>` and emits values of `O`.
pub trait SISO<T, O> {
    /// The block can take `input` in its present state.
    spec fn accepts(&self, input: Signal<T>) -> bool;

    /// Takes one input sample and returns the block's output for it.
    fn output(&mut self, input: Signal<T>) -> O
        requires
            old(self).accepts(input),
    ;

    /// The last output, if there was one.
    fn last_output(&self) -> Option<O>;
}

} // verus!
