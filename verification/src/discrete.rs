//! Discrete transfer functions: the state a difference equation carries
//! from one step to the next.

use vstd::prelude::*;

verus! {

/// `window` shifted by one place: `x` enters at the front and the oldest
/// value leaves, so the length stays the same (an empty window stays
/// empty).
pub open spec fn shifted<T>(window: Seq<T>, x: T) -> Seq<T> {
    if window.len() == 0 {
        window
    } else {
        seq![x] + window.subrange(0, window.len() - 1)
    }
}

/// A shift keeps the length of the history, puts the new value first and
/// moves every older value one place back, the oldest one falling out.
pub proof fn lemma_shifted_newest_first<T>(window: Seq<T>, x: T)
    requires
        window.len() > 0,
    ensures
        shifted(window, x).len() == window.len(),
        shifted(window, x)[0] == x,
        forall|i: int| 0 <= i < window.len() - 1 ==> shifted(window, x)[i + 1] == window[i],
{
}

/// Shifts `x` into the front of `window`, dropping its oldest value.
fn shift_in<T>(window: &mut Vec<T>, x: T)
    ensures
        final(window)@ == shifted(old(window)@, x),
{
    window.insert(0, x);
    window.pop();
    proof {
        if old(window)@.len() > 0 {
            assert(final(window)@ =~= shifted(old(window)@, x));
        }
    }
}

/// A copy of the values of `v`.
fn copy_of<T: Copy>(v: &[T]) -> (r: Vec<T>)
    ensures
        r@ == v@,
{
    let mut r: Vec<T> = Vec::new();
    let mut i: usize = 0;
    while i < v.len()
        invariant
            i <= v@.len(),
            r@ == v@.subrange(0, i as int),
        decreases v@.len() - i,
    {
        r.push(v[i]);
        i = i + 1;
        proof {
            assert(r@ =~= v@.subrange(0, i as int));
        }
    }
    proof {
        assert(r@ =~= v@);
    }
    r
}

/// `n` copies of `x`.
fn filled<T: Copy>(x: T, n: usize) -> (r: Vec<T>)
    ensures
        r@ == Seq::new(n as nat, |_i: int| x),
{
    let mut r: Vec<T> = Vec::new();
    let mut i: usize = 0;
    while i < n
        invariant
            i <= n,
            r@ == Seq::new(i as nat, |_i: int| x),
        decreases n - i,
    {
        r.push(x);
        i = i + 1;
        proof {
            assert(r@ =~= Seq::new(i as nat, |_i: int| x));
        }
    }
    r
}

/// A discrete transfer function with numerator coefficients `b0, b1, ...`
/// and denominator coefficients `a0, a1, ...` (for `z^0, z^-1, ...`),
/// evaluated as the difference equation
/// `y[k] = b0 u[k] + b1 u[k-1] + ... - (a1 / a0) y[k-1] - (a2 / a0) y[k-2] - ...`
/// (only the feedback coefficients are divided by `a0`).
///
/// The block keeps the last inputs (as many as numerator coefficients) and
/// the last outputs (one fewer than denominator coefficients), newest
/// first.  The weighted sum itself is formed by the caller, in the sample
/// type's own arithmetic, between `push_input` and `push_output`.
pub struct DTf<T> {
    numerator: Vec<T>,
    denominator: Vec<T>,
    initial_conditions: Option<(Vec<T>, Vec<T>)>,
    last_inputs: Vec<T>,
    last_outputs: Vec<T>,
}

impl<T: Copy> DTf<T> {
    /// The numerator coefficients, for `z^0, z^-1, ...`.
    pub closed spec fn numerator_spec(&self) -> Seq<T> {
        self.numerator@
    }

    /// The denominator coefficients, for `z^0, z^-1, ...`.
    pub closed spec fn denominator_spec(&self) -> Seq<T> {
        self.denominator@
    }

    /// The last inputs, newest first.
    pub closed spec fn inputs_spec(&self) -> Seq<T> {
        self.last_inputs@
    }

    /// The last outputs, newest first.
    pub closed spec fn outputs_spec(&self) -> Seq<T> {
        self.last_outputs@
    }

    /// The histories that `reset` restores, if they were set.
    pub closed spec fn initial_spec(&self) -> Option<(Seq<T>, Seq<T>)> {
        match self.initial_conditions {
            Some((i, o)) => Some((i@, o@)),
            None => None,
        }
    }

    /// The histories have the lengths that the coefficients call for.
    pub closed spec fn wf(&self) -> bool {
        &&& self.denominator@.len() >= 1
        &&& self.denominator@.len() >= self.numerator@.len()
        &&& self.last_inputs@.len() == self.numerator@.len()
        &&& self.last_outputs@.len() + 1 == self.denominator@.len()
        &&& (self.initial_conditions matches Some((i, o)) ==> i@.len() == self.numerator@.len()
            && o@.len() + 1 == self.denominator@.len())
    }

    /// A transfer function with the given coefficients and all-zero
    /// histories (zero being the sample type's default value).  The
    /// denominator must not be empty nor shorter than the numerator.
    pub fn new(numerator: &[T], denominator: &[T]) -> (d: Self)
        where T: Default,
        requires
            denominator@.len() >= 1,
            denominator@.len() >= numerator@.len(),
        ensures
            d.wf(),
            d.numerator_spec() == numerator@,
            d.denominator_spec() == denominator@,
            exists|zero: T|
                call_ensures(T::default, (), zero) && d.inputs_spec() == Seq::new(
                    numerator@.len(),
                    |_i: int| zero,
                ) && d.outputs_spec() == Seq::new((denominator@.len() - 1) as nat, |_i: int| zero),
            d.initial_spec() is None,
    {
        let zero = T::default();
        DTf {
            numerator: copy_of(numerator),
            denominator: copy_of(denominator),
            initial_conditions: None,
            last_inputs: filled(zero, numerator.len()),
            last_outputs: filled(zero, denominator.len() - 1),
        }
    }

    /// The same transfer function with the given histories, which `reset`
    /// also restores.  Their lengths must match the numerator and the
    /// denominator less one.
    pub fn with_initial_conditions(self, initial_inputs: Vec<T>, initial_outputs: Vec<T>) -> (d:
        Self)
        requires
            self.wf(),
            initial_inputs@.len() == self.inputs_spec().len(),
            initial_outputs@.len() == self.outputs_spec().len(),
        ensures
            d.wf(),
            d.numerator_spec() == self.numerator_spec(),
            d.denominator_spec() == self.denominator_spec(),
            d.inputs_spec() == initial_inputs@,
            d.outputs_spec() == initial_outputs@,
            d.initial_spec() == Some((initial_inputs@, initial_outputs@)),
    {
        let mut d = self;
        let kept_inputs = copy_of(initial_inputs.as_slice());
        let kept_outputs = copy_of(initial_outputs.as_slice());
        d.initial_conditions = Some((kept_inputs, kept_outputs));
        d.last_inputs = initial_inputs;
        d.last_outputs = initial_outputs;
        d
    }

    /// Records a new input: it becomes the newest of the last inputs and
    /// the oldest one is dropped.
    pub fn push_input(&mut self, input: T)
        requires
            old(self).wf(),
        ensures
            final(self).wf(),
            final(self).inputs_spec() == shifted(old(self).inputs_spec(), input),
            final(self).outputs_spec() == old(self).outputs_spec(),
            final(self).numerator_spec() == old(self).numerator_spec(),
            final(self).denominator_spec() == old(self).denominator_spec(),
            final(self).initial_spec() == old(self).initial_spec(),
    {
        shift_in(&mut self.last_inputs, input);
    }

    /// Records a new output: it becomes the newest of the last outputs and
    /// the oldest one is dropped.
    pub fn push_output(&mut self, output: T)
        requires
            old(self).wf(),
        ensures
            final(self).wf(),
            final(self).outputs_spec() == shifted(old(self).outputs_spec(), output),
            final(self).inputs_spec() == old(self).inputs_spec(),
            final(self).numerator_spec() == old(self).numerator_spec(),
            final(self).denominator_spec() == old(self).denominator_spec(),
            final(self).initial_spec() == old(self).initial_spec(),
    {
        shift_in(&mut self.last_outputs, output);
    }

    /// The newest output, if the transfer function keeps outputs (that is,
    /// if its denominator has more than one coefficient).
    pub fn last_output(&self) -> (r: Option<T>)
        ensures
            r == (if self.outputs_spec().len() > 0 {
                Some(self.outputs_spec()[0])
            } else {
                None
            }),
    {
        if self.last_outputs.len() > 0 {
            Some(self.last_outputs[0])
        } else {
            None
        }
    }

    /// Restores the histories set by `with_initial_conditions`, or zeroes
    /// them (zero being the sample type's default value).
    pub fn reset(&mut self)
        where T: Default,
        requires
            old(self).wf(),
        ensures
            final(self).wf(),
            final(self).numerator_spec() == old(self).numerator_spec(),
            final(self).denominator_spec() == old(self).denominator_spec(),
            final(self).initial_spec() == old(self).initial_spec(),
            match old(self).initial_spec() {
                Some((i, o)) => final(self).inputs_spec() == i && final(self).outputs_spec() == o,
                None => exists|zero: T|
                    call_ensures(T::default, (), zero) && final(self).inputs_spec() == Seq::new(
                        old(self).inputs_spec().len(),
                        |_i: int| zero,
                    ) && final(self).outputs_spec() == Seq::new(
                        old(self).outputs_spec().len(),
                        |_i: int| zero,
                    ),
            },
    {
        match &self.initial_conditions {
            Some((initial_inputs, initial_outputs)) => {
                let inputs = copy_of(initial_inputs.as_slice());
                let outputs = copy_of(initial_outputs.as_slice());
                self.last_inputs = inputs;
                self.last_outputs = outputs;
            },
            None => {
                let zero = T::default();
                let n = self.last_inputs.len();
                let m = self.last_outputs.len();
                self.last_inputs = filled(zero, n);
                self.last_outputs = filled(zero, m);
            },
        }
    }

    /// The numerator coefficients, for `z^0, z^-1, ...`.
    pub fn numerator(&self) -> (r: &[T])
        ensures
            r@ == self.numerator_spec(),
    {
        self.numerator.as_slice()
    }

    /// The denominator coefficients, for `z^0, z^-1, ...`.
    pub fn denominator(&self) -> (r: &[T])
        ensures
            r@ == self.denominator_spec(),
    {
        self.denominator.as_slice()
    }

    /// The last inputs, newest first.
    pub fn last_inputs(&self) -> (r: &[T])
        ensures
            r@ == self.inputs_spec(),
    {
        self.last_inputs.as_slice()
    }

    /// The last outputs, newest first.
    pub fn last_outputs(&self) -> (r: &[T])
        ensures
            r@ == self.outputs_spec(),
    {
        self.last_outputs.as_slice()
    }
}

} // verus!
