use crate::signal::Signal;
use vstd::prelude::*;

verus! {

/// A block with several inputs and several outputs, driven one step at a
/// time, for blocks that users write themselves.
pub trait MIMO<T> {
    /// Takes one sample of each input and returns one sample of each output.
    fn output(&mut self, input: Vec<Signal<T>>) -> Vec<Signal<T>>;

    /// The last outputs, if there were any.
    fn last_output(&self) -> Option<Vec<Signal<T>>>;

    /// The number of inputs and the number of outputs.
    fn dimensions(&self) -> (usize, usize);
}

} // verus!
