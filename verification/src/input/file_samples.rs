//! The replay logic of a recorded signal: which records are current as the
//! simulated time advances, and whether the output is a record's value or a
//! blend of two records.  Reading the records from their source is left to
//! the caller, which hands each new record over through `advance`.

use vstd::prelude::*;

verus! {

/// A recorded sample: its time, in nanoseconds, and its value.
#[derive(Clone, Copy, Debug)]
pub struct Record<T> {
    pub time: u128,
    pub value: T,
}

/// What a replayed signal emits at a step.
#[derive(Clone, Copy, Debug, PartialEq, Eq, Structural)]
pub enum Reading {
    /// The records are exhausted: nothing is emitted.
    Exhausted,
    /// The current record's value is emitted as it is.
    Current,
    /// The value is blended linearly from the last record that was reached
    /// towards the current one, by the share of the time between them that
    /// has passed.
    Blend,
}

/// The reading for a current and a last record: nothing once the records
/// are exhausted, the current value while no record has been reached or
/// the two records share their time, a blend of the two otherwise.
pub open spec fn reading_of<T>(current: Option<Record<T>>, last: Option<Record<T>>) -> Reading {
    match current {
        None => Reading::Exhausted,
        Some(c) => match last {
            None => Reading::Current,
            Some(l) => if l.time == c.time {
                Reading::Current
            } else {
                Reading::Blend
            },
        },
    }
}

/// A replay blends exactly when it stands between two records at different
/// times: with both a last and a current record, the reading is a blend
/// when their times differ and the current value when they coincide;
/// without a last record it is the current value, and without a current
/// record nothing.
pub proof fn lemma_reading_blends_between_distinct_times<T>(
    current: Option<Record<T>>,
    last: Option<Record<T>>,
)
    ensures
        (reading_of(current, last) == Reading::Blend) <==> (current is Some && last is Some
            && current->0.time != last->0.time),
        (reading_of(current, last) == Reading::Exhausted) <==> current is None,
        (reading_of(current, last) == Reading::Current) <==> (current is Some && (last is None
            || current->0.time == last->0.time)),
{
}

/// The position of a replay in its records: the record to be reached next
/// (`None` once they are exhausted) and the last record reached, if any.
pub struct RecordCursor<T> {
    current: Option<Record<T>>,
    last: Option<Record<T>>,
}

impl<T> RecordCursor<T> {
    /// The record to be reached next.
    pub closed spec fn current_spec(&self) -> Option<Record<T>> {
        self.current
    }

    /// The last record reached.
    pub closed spec fn last_spec(&self) -> Option<Record<T>> {
        self.last
    }

    /// A replay before any record is reached, starting at `first` (`None`
    /// for a source without records).
    pub fn new(first: Option<Record<T>>) -> (c: Self)
        ensures
            c.current_spec() == first,
            c.last_spec() is None,
    {
        RecordCursor { current: first, last: None }
    }

    /// The current record has been reached at time `now`: the replay must
    /// move on to the next record before it emits anything.
    pub fn is_due(&self, now: u128) -> (r: bool)
        ensures
            r == (self.current_spec() matches Some(c) && now >= c.time),
    {
        match &self.current {
            Some(c) => now >= c.time,
            None => false,
        }
    }

    /// Moves on by one record: the current record becomes the last one
    /// reached and `next` (`None` once the source is exhausted) becomes the
    /// current one.
    pub fn advance(&mut self, next: Option<Record<T>>)
        requires
            old(self).current_spec() is Some,
        ensures
            final(self).last_spec() == old(self).current_spec(),
            final(self).current_spec() == next,
    {
        self.last = self.current.take();
        self.current = next;
    }

    /// What the replay emits in its present position.
    pub fn reading(&self) -> (r: Reading)
        ensures
            r == reading_of(self.current_spec(), self.last_spec()),
            (r == Reading::Blend) <==> (self.current_spec() is Some && self.last_spec() is Some
                && self.current_spec()->0.time != self.last_spec()->0.time),
            (r == Reading::Exhausted) <==> self.current_spec() is None,
    {
        match &self.current {
            None => Reading::Exhausted,
            Some(c) => match &self.last {
                None => Reading::Current,
                Some(l) => if l.time == c.time {
                    Reading::Current
                } else {
                    Reading::Blend
                },
            },
        }
    }

    /// The record to be reached next.
    pub fn current(&self) -> (r: Option<&Record<T>>)
        ensures
            r == match self.current_spec() {
                Some(c) => Some(&c),
                None => None::<&Record<T>>,
            },
    {
        self.current.as_ref()
    }

    /// The last record reached.
    pub fn last(&self) -> (r: Option<&Record<T>>)
        ensures
            r == match self.last_spec() {
                Some(l) => Some(&l),
                None => None::<&Record<T>>,
            },
    {
        self.last.as_ref()
    }
}

} // verus!
