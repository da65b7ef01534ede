use crate::block::siso::SISO;
use crate::signal::Signal;
use vstd::prelude::*;

verus! {

/// An input held by the delay line, together with the instant (in
/// nanoseconds of simulated time) at which it reaches the output.
#[derive(Clone, Copy, Debug)]
pub struct Entry<T> {
    pub instant: u128,
    pub signal: Signal<T>,
}

/// What a delay line emits for one input.
///
/// While the simulated time is at most the delay it emits its initial
/// signal.  After that it emits the linear interpolation between two consecutive buffered inputs:
/// the value is `(1 - g) * first.value + g * second.value` with
/// `g = elapsed / span`, and the time step is the mean of the two steps.
#[derive(Clone, Copy, Debug)]
pub enum DelayOutput<T> {
    Initial(Signal<T>),
    Interpolated { first: Signal<T>, second: Signal<T>, elapsed: u128, span: u128 },
}

/// The instants of `s` never decrease.
pub open spec fn sorted_instants<T>(s: Seq<Entry<T>>) -> bool {
    forall|i: int, j: int| 0 <= i <= j < s.len() ==> s[i].instant <= s[j].instant
}

/// `j` is the index of the last entry of `s` that has reached time `t`, and
/// an entry after it has not reached `t` yet.
pub open spec fn brackets<T>(s: Seq<Entry<T>>, j: int, t: int) -> bool {
    &&& 0 <= j
    &&& j + 1 < s.len()
    &&& s[j].instant <= t
    &&& t < s[j + 1].instant
}

/// The output for time `t` taken from the bracketing pair at index `j`.
pub open spec fn interpolation_at<T>(s: Seq<Entry<T>>, j: int, t: int) -> DelayOutput<T> {
    DelayOutput::Interpolated {
        first: s[j].signal,
        second: s[j + 1].signal,
        elapsed: (t - s[j].instant) as u128,
        span: (s[j + 1].instant - s[j].instant) as u128,
    }
}

/// The initial signal as it is emitted for an input with step `dt`: a
/// zero step is replaced by the input's step.
pub open spec fn patched_initial<T>(initial: Signal<T>, dt: u128) -> Signal<T> {
    if initial.dt == 0 {
        Signal { value: initial.value, dt: dt }
    } else {
        initial
    }
}

/// In a buffer ordered by instants, at most one pair of consecutive entries
/// brackets a given time: the interpolation a delay line emits is
/// determined by the buffer and the time.
pub proof fn lemma_bracket_unique<T>(s: Seq<Entry<T>>, j: int, k: int, t: int)
    requires
        sorted_instants(s),
        brackets(s, j, t),
        brackets(s, k, t),
    ensures
        j == k,
{
    if j < k {
        assert(s[j + 1].instant <= s[k].instant);
    } else if k < j {
        assert(s[k + 1].instant <= s[j].instant);
    }
}

/// An input reaches the output exactly when its instant comes: if the
/// buffered entry at `k` leaves at time `t` and the entry after it leaves
/// later, the output at `t` is that entry's signal with interpolation
/// weight zero.
pub proof fn lemma_entry_emitted_when_due<T>(s: Seq<Entry<T>>, j: int, k: int, t: int)
    requires
        sorted_instants(s),
        brackets(s, j, t),
        0 <= k,
        k + 1 < s.len(),
        s[k].instant == t,
        s[k + 1].instant > t,
    ensures
        j == k,
        interpolation_at(s, j, t) == (DelayOutput::Interpolated {
            first: s[k].signal,
            second: s[k + 1].signal,
            elapsed: 0,
            span: (s[k + 1].instant - t) as u128,
        }),
{
    lemma_bracket_unique(s, j, k, t);
}

/// A block that delays its input by a fixed time.
///
/// Each input is buffered until `delay` nanoseconds of simulated time have
/// passed; the output then follows the buffered inputs, interpolating
/// linearly between them.
pub struct Delay<T> {
    delay: u128,
    current_time: u128,
    initial_signal: Signal<T>,
    input_buffer: Vec<Entry<T>>,
    last_output: Option<DelayOutput<T>>,
}

impl<T: Copy> Delay<T> {
    /// The delay, in nanoseconds.
    pub closed spec fn delay_spec(&self) -> u128 {
        self.delay
    }

    /// The simulated time reached so far, in nanoseconds.
    pub closed spec fn time_spec(&self) -> u128 {
        self.current_time
    }

    /// The signal emitted until the delay has elapsed.
    pub closed spec fn initial_spec(&self) -> Signal<T> {
        self.initial_signal
    }

    /// The inputs still held, oldest first.
    pub closed spec fn buffered(&self) -> Seq<Entry<T>> {
        self.input_buffer@
    }

    /// The last output, if there was one.
    pub closed spec fn last_spec(&self) -> Option<DelayOutput<T>> {
        self.last_output
    }

    /// The delay line is consistent: the delay is positive, the buffer holds
    /// at least one entry, in order of instants, the newest entry leaves at
    /// `time + delay`, and the oldest one is either the initial entry or has
    /// already left.
    pub closed spec fn wf(&self) -> bool {
        &&& self.delay > 0
        &&& self.input_buffer@.len() >= 1
        &&& sorted_instants(self.input_buffer@)
        &&& self.input_buffer@.last().instant == self.current_time + self.delay
        &&& (self.input_buffer@[0].instant <= self.delay || self.input_buffer@[0].instant
            <= self.current_time)
    }

    /// A delay line of `delay` nanoseconds whose initial signal has the
    /// default value and a zero step.
    pub fn new(delay: u128) -> (d: Self)
        where T: Default,
        requires
            delay > 0,
        ensures
            d.wf(),
            d.delay_spec() == delay,
            d.time_spec() == 0,
            d.initial_spec().dt == 0,
            call_ensures(T::default, (), d.initial_spec().value),
            d.buffered() == seq![Entry { instant: delay, signal: d.initial_spec() }],
            d.last_spec() is None,
    {
        let initial = Signal { value: T::default(), dt: 0 };
        let mut input_buffer = Vec::new();
        input_buffer.push(Entry { instant: delay, signal: initial });
        Delay { delay, current_time: 0, initial_signal: initial, input_buffer, last_output: None }
    }
    /// The same delay line with `initial_signal` as its initial signal; the
    /// oldest buffered entry carries it too.
    pub fn with_initial_signal(self, initial_signal: Signal<T>) -> (d: Self)
        requires
            self.wf(),
        ensures
            initial_signal_set(self, initial_signal, d),
    {
        let mut d = self;
        d.initial_signal = initial_signal;
        let instant = d.input_buffer[0].instant;
        d.input_buffer.set(0, Entry { instant, signal: initial_signal });
        d
    }

    /// Drops the buffered inputs that lie wholly in the past: afterwards the
    /// buffer starts at the last entry that has reached the current time,
    /// and the entry after it has not reached it yet.
    fn drop_invalid_inputs(&mut self)
        requires
            old(self).input_buffer@.len() >= 2,
            sorted_instants(old(self).input_buffer@),
            old(self).input_buffer@[0].instant <= old(self).current_time,
            old(self).input_buffer@.last().instant > old(self).current_time,
        ensures
            final(self).delay == old(self).delay,
            final(self).current_time == old(self).current_time,
            final(self).initial_signal == old(self).initial_signal,
            final(self).last_output == old(self).last_output,
            exists|j: int|
                {
                    &&& brackets(old(self).input_buffer@, j, old(self).current_time as int)
                    &&& final(self).input_buffer@ == old(self).input_buffer@.subrange(
                        j,
                        old(self).input_buffer@.len() as int,
                    )
                },
    {
        let ghost orig = self.input_buffer@;
        let ghost n = orig.len() as int;
        let ghost mut k: int = 0;
        loop
            invariant
                0 <= k < n,
                sorted_instants(orig),
                orig[k].instant <= self.current_time,
                orig[n - 1].instant > self.current_time,
                self.input_buffer@ == orig.subrange(k, n),
                self.delay == old(self).delay,
                self.current_time == old(self).current_time,
                self.initial_signal == old(self).initial_signal,
                self.last_output == old(self).last_output,
                n == old(self).input_buffer@.len(),
                orig == old(self).input_buffer@,
            ensures
                brackets(orig, k, self.current_time as int),
                self.input_buffer@ == orig.subrange(k, n),
                self.delay == old(self).delay,
                self.current_time == old(self).current_time,
                self.initial_signal == old(self).initial_signal,
                self.last_output == old(self).last_output,
            decreases n - k,
        {
            if self.input_buffer.len() < 2 {
                break;
            }
            let second = self.input_buffer[1];
            if self.current_time < second.instant {
                break;
            }
            self.input_buffer.remove(0);
            proof {
                k = k + 1;
                assert(self.input_buffer@ =~= orig.subrange(k, n));
            }
        }
    }

    /// The delay, in nanoseconds.
    pub fn delay(&self) -> (r: u128)
        ensures
            r == self.delay_spec(),
    {
        self.delay
    }

    /// The simulated time reached so far, in nanoseconds.
    pub fn current_time(&self) -> (r: u128)
        ensures
            r == self.time_spec(),
    {
        self.current_time
    }

    /// The signal emitted until the delay has elapsed.
    pub fn initial_signal(&self) -> (r: Signal<T>)
        ensures
            r == self.initial_spec(),
    {
        self.initial_signal
    }
}

/// `after` is `before` with `initial_signal` as its initial signal: the
/// oldest buffered entry carries it too, at its instant, and nothing else
/// changes.
pub open spec fn initial_signal_set<T: Copy>(
    before: Delay<T>,
    initial_signal: Signal<T>,
    after: Delay<T>,
) -> bool {
    &&& after.wf()
    &&& after.delay_spec() == before.delay_spec()
    &&& after.time_spec() == before.time_spec()
    &&& after.initial_spec() == initial_signal
    &&& after.buffered() == before.buffered().update(
        0,
        Entry { instant: before.buffered()[0].instant, signal: initial_signal },
    )
    &&& after.last_spec() == before.last_spec()
}

/// Two delay lines in the same state: same delay, time, initial signal,
/// buffered inputs and last output.
pub open spec fn same_state<T: Copy>(a: Delay<T>, b: Delay<T>) -> bool {
    &&& a.delay_spec() == b.delay_spec()
    &&& a.time_spec() == b.time_spec()
    &&& a.initial_spec() == b.initial_spec()
    &&& a.buffered() == b.buffered()
    &&& a.last_spec() == b.last_spec()
}

/// Setting the initial signal twice is the same as setting it once to the
/// second value: the last setting wins.
pub proof fn lemma_initial_signal_last_setting_wins<T: Copy>(
    d: Delay<T>,
    s1: Signal<T>,
    s2: Signal<T>,
    d1: Delay<T>,
    d2: Delay<T>,
    d3: Delay<T>,
)
    requires
        d.wf(),
        initial_signal_set(d, s1, d1),
        initial_signal_set(d1, s2, d2),
        initial_signal_set(d, s2, d3),
    ensures
        same_state(d2, d3),
{
    assert(d2.buffered() =~= d3.buffered());
}

/// Setting the initial signal to the one a line already has, while its
/// oldest entry still carries it, changes nothing.
pub proof fn lemma_initial_signal_same_is_no_change<T: Copy>(d: Delay<T>, d1: Delay<T>)
    requires
        d.wf(),
        d.buffered()[0].signal == d.initial_spec(),
        initial_signal_set(d, d.initial_spec(), d1),
    ensures
        same_state(d, d1),
{
    assert(d1.buffered() =~= d.buffered());
}

/// One step of a delay line: `before` takes `input` and becomes `after`,
/// emitting `r`.
///
/// The line stays consistent, keeps its delay, advances its time by the
/// input's step and keeps `r` as its last output.  The input is buffered to
/// leave at `t + delay`, where `t` is the new time.  While `t` is at most
/// the delay, `r` is the initial signal (its step, if zero, set to the
/// input's step) and nothing leaves the buffer.  Afterwards `r` is the
/// interpolation between the bracketing pair of buffered inputs around `t`
/// (its elapsed time below its span), and the buffer keeps the inputs from
/// that pair on.
pub open spec fn output_step<T: Copy>(
    before: Delay<T>,
    input: Signal<T>,
    after: Delay<T>,
    r: DelayOutput<T>,
) -> bool {
    let t = before.time_spec() + input.dt;
    let entries = before.buffered().push(
        Entry { instant: (t + before.delay_spec()) as u128, signal: input },
    );
    &&& after.wf()
    &&& after.delay_spec() == before.delay_spec()
    &&& after.time_spec() == t
    &&& after.last_spec() == Some(r)
    &&& r matches DelayOutput::Interpolated { elapsed, span, .. } ==> elapsed < span
    &&& if t <= before.delay_spec() {
        &&& r == DelayOutput::Initial(patched_initial(before.initial_spec(), input.dt))
        &&& after.initial_spec() == patched_initial(before.initial_spec(), input.dt)
        &&& after.buffered() == entries
    } else {
        &&& after.initial_spec() == before.initial_spec()
        &&& exists|j: int|
            {
                &&& brackets(entries, j, t)
                &&& r == interpolation_at(entries, j, t)
                &&& after.buffered() == entries.subrange(j, entries.len() as int)
            }
    }
}

/// An interpolated output is measured from the pair of inputs it blends:
/// after the step the buffer starts with that pair, the first of them left
/// the line `elapsed` nanoseconds before the current time, and the second
/// leaves `span` nanoseconds after the first, still in the future.  So the
/// weight of the second input, `elapsed / span`, is the share of the time
/// between the two that has passed.
pub proof fn lemma_interpolation_measured_from_pair<T: Copy>(
    before: Delay<T>,
    input: Signal<T>,
    after: Delay<T>,
    r: DelayOutput<T>,
)
    requires
        output_step(before, input, after, r),
    ensures
        r matches DelayOutput::Interpolated { first, second, elapsed, span } ==> {
            &&& after.buffered().len() >= 2
            &&& first == after.buffered()[0].signal
            &&& second == after.buffered()[1].signal
            &&& after.buffered()[0].instant + elapsed == after.time_spec()
            &&& after.buffered()[0].instant + span == after.buffered()[1].instant
            &&& after.time_spec() < after.buffered()[1].instant
        },
{
    let t = before.time_spec() + input.dt;
    let entries = before.buffered().push(
        Entry { instant: (t + before.delay_spec()) as u128, signal: input },
    );
    if t > before.delay_spec() {
        let j = choose|j: int|
            {
                &&& brackets(entries, j, t)
                &&& r == interpolation_at(entries, j, t)
                &&& after.buffered() == entries.subrange(j, entries.len() as int)
            };
        assert(after.buffered()[0] == entries[j]);
        assert(after.buffered()[1] == entries[j + 1]);
    }
}

/// The buffer a step works on (the old buffer with the input appended) is
/// ordered by instants.
proof fn lemma_step_entries_sorted<T: Copy>(
    before: Delay<T>,
    input: Signal<T>,
    after: Delay<T>,
    r: DelayOutput<T>,
)
    requires
        before.wf(),
        output_step(before, input, after, r),
    ensures
        sorted_instants(
            before.buffered().push(
                Entry {
                    instant: (before.time_spec() + input.dt + before.delay_spec()) as u128,
                    signal: input,
                },
            ),
        ),
{
    let t = before.time_spec() + input.dt;
    let entries = before.buffered().push(
        Entry { instant: (t + before.delay_spec()) as u128, signal: input },
    );
    assert(after.buffered().last() == entries.last()) by {
        if t > before.delay_spec() {
            let j = choose|j: int|
                {
                    &&& brackets(entries, j, t)
                    &&& r == interpolation_at(entries, j, t)
                    &&& after.buffered() == entries.subrange(j, entries.len() as int)
                };
        }
    }
    assert forall|a: int, b: int| 0 <= a <= b < entries.len() implies entries[a].instant
        <= entries[b].instant by {
        if b < entries.len() - 1 {
            assert(entries[a] == before.buffered()[a]);
            assert(entries[b] == before.buffered()[b]);
        } else if a < entries.len() - 1 {
            assert(entries[a] == before.buffered()[a]);
            assert(before.buffered()[a].instant <= before.buffered().last().instant);
        }
    }
}

/// A step is determined by the state and the input: two lines in the same
/// state, fed the same input, emit the same output and end in the same
/// state.  So lines in the same state behave alike for every sequence of
/// inputs.
pub proof fn lemma_step_deterministic<T: Copy>(
    b1: Delay<T>,
    b2: Delay<T>,
    input: Signal<T>,
    a1: Delay<T>,
    a2: Delay<T>,
    r1: DelayOutput<T>,
    r2: DelayOutput<T>,
)
    requires
        b1.wf(),
        same_state(b1, b2),
        output_step(b1, input, a1, r1),
        output_step(b2, input, a2, r2),
    ensures
        r1 == r2,
        same_state(a1, a2),
{
    let t = b1.time_spec() + input.dt;
    let entries = b1.buffered().push(
        Entry { instant: (t + b1.delay_spec()) as u128, signal: input },
    );
    if t > b1.delay_spec() {
        lemma_step_entries_sorted(b1, input, a1, r1);
        let j1 = choose|j: int|
            {
                &&& brackets(entries, j, t)
                &&& r1 == interpolation_at(entries, j, t)
                &&& a1.buffered() == entries.subrange(j, entries.len() as int)
            };
        let j2 = choose|j: int|
            {
                &&& brackets(entries, j, t)
                &&& r2 == interpolation_at(entries, j, t)
                &&& a2.buffered() == entries.subrange(j, entries.len() as int)
            };
        lemma_bracket_unique(entries, j1, j2, t);
    }
}

/// The entries a delay line of `k * h` nanoseconds, fed the inputs `xs`
/// one after another at the constant step `h`, has buffered after `i`
/// steps, counting those already dropped: the initial entry `e0`, then the
/// `j`-th input, which leaves at `(j + 1 + k) * h`.
pub open spec fn fed_entries<T>(e0: Entry<T>, xs: Seq<Signal<T>>, h: int, k: int, i: int) -> Seq<
    Entry<T>,
> {
    seq![e0] + Seq::new(
        i as nat,
        |j: int| Entry { instant: ((j + 1 + k) * h) as u128, signal: xs[j] },
    )
}

/// How many of those entries a delay line of `k` steps has dropped after
/// `i` steps: none until its time has passed the delay, then one per step.
pub open spec fn dropped_count(i: int, k: int) -> int {
    if i > k {
        i - k
    } else {
        0
    }
}

/// The state of a delay line of `k * h` nanoseconds after `i` steps of `h`,
/// starting from `d0`.
pub open spec fn run_state<T: Copy>(
    d: Delay<T>,
    d0: Delay<T>,
    xs: Seq<Signal<T>>,
    h: int,
    k: int,
    i: int,
) -> bool {
    &&& d.wf()
    &&& d.delay_spec() == k * h
    &&& d.time_spec() == i * h
    &&& d.initial_spec().value == d0.initial_spec().value
    &&& d.buffered() == fed_entries(d0.buffered()[0], xs, h, k, i).subrange(
        dropped_count(i, k),
        i + 1,
    )
}

/// What the `m`-th step (counting from zero) of a delay line of `k` steps
/// of `h` emits: the initial value for the first `k` steps, and from then
/// on the input fed `k` steps earlier, exactly (weight zero towards the
/// input after it).
pub open spec fn k_step_output<T>(r: DelayOutput<T>, v0: T, xs: Seq<Signal<T>>, h: int, k: int, m: int) -> bool {
    if m + 1 <= k {
        r matches DelayOutput::Initial(s) && s.value == v0
    } else {
        r == (DelayOutput::Interpolated {
            first: xs[m - k],
            second: xs[m - k + 1],
            elapsed: 0,
            span: h as u128,
        })
    }
}

proof fn lemma_step_arith(i: int, k: int, h: int)
    requires
        i >= 0,
        k >= 1,
        h > 0,
    ensures
        (i + 1 + k) * h == (i + 1) * h + k * h,
        (i + 1) * h == i * h + h,
        (i + 2) * h == (i + 1) * h + h,
        (i + 2) * h <= (i + 1 + k) * h,
        i * h >= 0,
{
    assert((i + 1 + k) * h == (i + 1) * h + k * h) by (nonlinear_arith);
    assert((i + 1) * h == i * h + h) by (nonlinear_arith);
    assert((i + 2) * h == (i + 1) * h + h) by (nonlinear_arith);
    assert((i + 2) * h <= (i + 1 + k) * h) by (nonlinear_arith)
        requires
            k >= 1,
            h > 0,
    ;
    assert(i * h >= 0) by (nonlinear_arith)
        requires
            i >= 0,
            h > 0,
    ;
}

/// One step of the run: from the state after `i` steps, feeding `xs[i]`
/// leads to the state after `i + 1` steps and emits the `i`-th output.
proof fn lemma_run_step<T: Copy>(
    before: Delay<T>,
    after: Delay<T>,
    r: DelayOutput<T>,
    d0: Delay<T>,
    xs: Seq<Signal<T>>,
    h: int,
    k: int,
    i: int,
)
    requires
        0 <= i < xs.len(),
        h > 0,
        k >= 1,
        xs[i].dt == h,
        run_state(before, d0, xs, h, k, i),
        output_step(before, xs[i], after, r),
    ensures
        run_state(after, d0, xs, h, k, i + 1),
        k_step_output(r, d0.initial_spec().value, xs, h, k, i),
{
    lemma_step_arith(i, k, h);
    let e0 = d0.buffered()[0];
    let full = fed_entries(e0, xs, h, k, i + 1);
    let old_full = fed_entries(e0, xs, h, k, i);
    let t = before.time_spec() + xs[i].dt;
    let new_entry = Entry { instant: (t + before.delay_spec()) as u128, signal: xs[i] };
    let entries = before.buffered().push(new_entry);
    let lo = dropped_count(i, k);
    assert(t == (i + 1) * h);
    assert(full =~= old_full.push(new_entry));
    assert(entries =~= full.subrange(lo, i + 2));
    if t <= before.delay_spec() {
        assert(i + 1 <= k) by (nonlinear_arith)
            requires
                (i + 1) * h <= k * h,
                h > 0,
        ;
        assert(dropped_count(i + 1, k) == 0);
    } else {
        assert(i + 1 > k) by (nonlinear_arith)
            requires
                (i + 1) * h > k * h,
                h > 0,
        ;
        let g = i + 1 - k;
        let j0 = g - lo;
        assert(1 <= g <= i);
        assert(lo <= g);
        assert(entries[j0] == full[g]);
        assert(entries[j0 + 1] == full[g + 1]);
        assert(full[g] == Entry { instant: ((g - 1 + 1 + k) * h) as u128, signal: xs[g - 1] });
        assert(full[g + 1] == Entry { instant: ((g + 1 + k) * h) as u128, signal: xs[g] });
        assert(g - 1 + 1 + k == i + 1);
        assert(g + 1 + k == i + 2);
        assert(full[g].instant == t);
        assert(full[g + 1].instant == (i + 2) * h);
        assert(brackets(entries, j0, t));
        lemma_step_entries_sorted(before, xs[i], after, r);
        let j = choose|j: int|
            {
                &&& brackets(entries, j, t)
                &&& r == interpolation_at(entries, j, t)
                &&& after.buffered() == entries.subrange(j, entries.len() as int)
            };
        lemma_bracket_unique(entries, j, j0, t);
        assert(after.buffered() =~= full.subrange(g, i + 2));
        assert(dropped_count(i + 1, k) == g);
    }
}

/// A delay line of `k` steps of `h` is an exact `k`-sample delay: fed the
/// inputs `xs` one after another, each with step `h`, starting from a fresh
/// line (nothing buffered but its initial entry), it emits its initial
/// value for the first `k` steps and, at every later step `m`, exactly the
/// input fed at step `m - k`.
///
/// `ds` are the states of the line before and after each step and `rs` its
/// outputs; each step is one call of `output`.
pub proof fn lemma_exact_k_sample_delay<T: Copy>(
    ds: Seq<Delay<T>>,
    xs: Seq<Signal<T>>,
    rs: Seq<DelayOutput<T>>,
    h: u128,
    k: nat,
)
    requires
        ds.len() == xs.len() + 1,
        rs.len() == xs.len(),
        h > 0,
        k >= 1,
        ds[0].wf(),
        ds[0].delay_spec() == k * h,
        ds[0].time_spec() == 0,
        ds[0].buffered().len() == 1,
        forall|i: int| 0 <= i < xs.len() ==> (#[trigger] xs[i]).dt == h,
        forall|i: int| 0 <= i < xs.len() ==> output_step(ds[i], xs[i], #[trigger] ds[i + 1], rs[i]),
    ensures
        forall|m: int|
            0 <= m < xs.len() ==> k_step_output(
                #[trigger] rs[m],
                ds[0].initial_spec().value,
                xs,
                h as int,
                k as int,
                m,
            ),
{
    lemma_run_prefix(ds, xs, rs, h as int, k as int, xs.len() as int);
}

/// The first `n` steps of the run: the state after them and the outputs
/// they emitted.
proof fn lemma_run_prefix<T: Copy>(
    ds: Seq<Delay<T>>,
    xs: Seq<Signal<T>>,
    rs: Seq<DelayOutput<T>>,
    h: int,
    k: int,
    n: int,
)
    requires
        0 <= n <= xs.len(),
        ds.len() == xs.len() + 1,
        rs.len() == xs.len(),
        h > 0,
        k >= 1,
        ds[0].wf(),
        ds[0].delay_spec() == k * h,
        ds[0].time_spec() == 0,
        ds[0].buffered().len() == 1,
        forall|i: int| 0 <= i < xs.len() ==> (#[trigger] xs[i]).dt == h,
        forall|i: int| 0 <= i < xs.len() ==> output_step(ds[i], xs[i], #[trigger] ds[i + 1], rs[i]),
    ensures
        run_state(ds[n], ds[0], xs, h, k, n),
        forall|m: int|
            0 <= m < n ==> k_step_output(#[trigger] rs[m], ds[0].initial_spec().value, xs, h, k, m),
    decreases n,
{
    if n == 0 {
        assert(ds[0].buffered() =~= fed_entries(ds[0].buffered()[0], xs, h, k, 0).subrange(0, 1));
    } else {
        lemma_run_prefix(ds, xs, rs, h, k, n - 1);
        let i = n - 1;
        assert(xs[i].dt == h);
        assert(output_step(ds[i], xs[i], ds[i + 1], rs[i]));
        lemma_run_step(ds[i], ds[i + 1], rs[i], ds[0], xs, h, k, i);
    }
}

impl<T: Copy> SISO<T, DelayOutput<T>> for Delay<T> {
    /// A consistent delay line accepts any input whose step does not carry
    /// the time, or the time at which the input leaves, past `u128::MAX`.
    open spec fn accepts(&self, input: Signal<T>) -> bool {
        &&& self.wf()
        &&& self.time_spec() + input.dt + self.delay_spec() <= u128::MAX
    }

    /// Feeds one input into the delay line and returns what it emits.
    ///
    /// The simulated time advances by the input's step and the input is
    /// buffered to leave at `time + delay`.  While the time has not passed
    /// the delay (up to and including the instant it is reached) the
    /// initial signal is emitted (its step, if zero, is first set to the
    /// input's step).  Afterwards the inputs that lie wholly in the past are
    /// dropped and the output interpolates between the last buffered input
    /// that has reached the current time and the one after it.
    fn output(&mut self, input: Signal<T>) -> (r: DelayOutput<T>)
        ensures
            output_step(*old(self), input, *final(self), r),
            r matches DelayOutput::Interpolated { first, second, elapsed, span } ==> {
                &&& final(self).buffered().len() >= 2
                &&& first == final(self).buffered()[0].signal
                &&& second == final(self).buffered()[1].signal
                &&& final(self).buffered()[0].instant + elapsed == final(self).time_spec()
                &&& final(self).buffered()[0].instant + span == final(self).buffered()[1].instant
            },
    {
        self.current_time = self.current_time + input.dt;
        let now = self.current_time;
        let entry = Entry { instant: now + self.delay, signal: input };
        self.input_buffer.push(entry);
        if now <= self.delay {
            if self.initial_signal.dt == 0 {
                self.initial_signal.dt = input.dt;
            }
            let out = DelayOutput::Initial(self.initial_signal);
            self.last_output = Some(out);
            assert(self.input_buffer@ == old(self).buffered().push(entry));
            assert(sorted_instants(self.input_buffer@));
            return out;
        }
        let ghost entries = self.input_buffer@;
        self.drop_invalid_inputs();
        let first = self.input_buffer[0];
        let second = self.input_buffer[1];
        let out = DelayOutput::Interpolated {
            first: first.signal,
            second: second.signal,
            elapsed: now - first.instant,
            span: second.instant - first.instant,
        };
        proof {
            let j = choose|j: int|
                {
                    &&& brackets(entries, j, now as int)
                    &&& self.input_buffer@ == entries.subrange(j, entries.len() as int)
                };
            assert(self.input_buffer@[0] == entries[j]);
            assert(self.input_buffer@[1] == entries[j + 1]);
            assert(out == interpolation_at(entries, j, now as int));
            assert(entries == old(self).buffered().push(entry));
            assert(brackets(entries, j, now as int));
            assert(self.input_buffer@ == entries.subrange(j, entries.len() as int));
            assert(sorted_instants(self.input_buffer@));
            assert(self.input_buffer@.last().instant == now + self.delay);
        }
        self.last_output = Some(out);
        out
    }

    /// The last output, if there was one.
    fn last_output(&self) -> (r: Option<DelayOutput<T>>)
        ensures
            r == self.last_spec(),
    {
        self.last_output
    }

}

} // verus!
