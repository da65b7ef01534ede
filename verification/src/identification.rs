//! The search routines behind step-response identification.
//!
//! The identification methods compare sample values by their distance to a
//! target level.  Those distances are handed over as order keys: unsigned
//! integers that order the same way as the distances they stand for (for a
//! non-negative IEEE float, its bit pattern is such a key).  A key at or
//! above the search bound (the key of infinity) never counts as a match.

use vstd::prelude::*;

verus! {

/// A sample time, in nanoseconds, with the order key of the sample's
/// distance to the value searched for.
#[derive(Clone, Copy, Debug)]
pub struct TimedKey {
    pub time: u128,
    pub key: u64,
}

/// Index `i` holds the first minimal key of `s`, and that key is below
/// `bound`.
pub open spec fn is_first_minimum(s: Seq<TimedKey>, i: int, bound: u64) -> bool {
    &&& 0 <= i < s.len()
    &&& s[i].key < bound
    &&& forall|j: int| 0 <= j < i ==> s[j].key > s[i].key
    &&& forall|j: int| i < j < s.len() ==> s[j].key >= s[i].key
}

/// The time of the sample closest to the value searched for: the time of
/// the first minimal key, provided that key is below `bound`.
pub open spec fn closest_time(s: Seq<TimedKey>, bound: u64) -> Option<u128> {
    if exists|i: int| is_first_minimum(s, i, bound) {
        Some(s[choose|i: int| is_first_minimum(s, i, bound)].time)
    } else {
        None
    }
}

/// At most one index holds the first minimal key.
pub proof fn lemma_first_minimum_unique(s: Seq<TimedKey>, i: int, j: int, bound: u64)
    requires
        is_first_minimum(s, i, bound),
        is_first_minimum(s, j, bound),
    ensures
        i == j,
{
    if i < j {
        assert(s[i].key > s[j].key);
    } else if j < i {
        assert(s[j].key > s[i].key);
    }
}

/// A first minimal key below `bound` exists exactly when some key is below
/// `bound`.
pub proof fn lemma_first_minimum_exists(s: Seq<TimedKey>, bound: u64)
    ensures
        (exists|i: int| is_first_minimum(s, i, bound)) <==> (exists|j: int|
            0 <= j < s.len() && s[j].key < bound),
    decreases s.len(),
{
    if exists|j: int| 0 <= j < s.len() && s[j].key < bound {
        if s.len() > 0 {
            let t = s.drop_last();
            lemma_first_minimum_exists(t, bound);
            let last = s.len() - 1;
            assert(forall|k: int| 0 <= k < t.len() ==> t[k] == s[k]);
            if exists|j: int| 0 <= j < t.len() && t[j].key < bound {
                let i = choose|i: int| is_first_minimum(t, i, bound);
                if s[last].key < t[i].key {
                    assert(is_first_minimum(s, last, bound));
                } else {
                    assert(is_first_minimum(s, i, bound));
                }
            } else {
                assert(s[last].key < bound);
                assert(forall|k: int| 0 <= k < last ==> s[k].key >= bound);
                assert(is_first_minimum(s, last, bound));
            }
        }
    }
}

/// The time found is that of a sample whose key is below the bound and no
/// larger than any other key, and every sample before it has a larger
/// key: ties go to the earliest sample.  No time is found exactly when no
/// key is below the bound.
pub proof fn lemma_closest_time_is_earliest_minimum(s: Seq<TimedKey>, bound: u64)
    ensures
        closest_time(s, bound) matches Some(x) ==> exists|i: int|
            {
                &&& 0 <= i < s.len()
                &&& #[trigger] s[i].time == x
                &&& s[i].key < bound
                &&& forall|j: int| 0 <= j < s.len() ==> s[j].key >= s[i].key
                &&& forall|j: int| 0 <= j < i ==> s[j].key > s[i].key
            },
        closest_time(s, bound) is None <==> forall|j: int| 0 <= j < s.len() ==> s[j].key >= bound,
{
    lemma_first_minimum_exists(s, bound);
    if exists|i: int| is_first_minimum(s, i, bound) {
        let i = choose|i: int| is_first_minimum(s, i, bound);
        assert(s[i].time == closest_time(s, bound)->0);
    }
}

/// The time of the sample closest to the value searched for (see
/// `closest_time`); `None` when no key is below `bound`, in particular for
/// no samples.
pub fn find_time_at_value(samples: &Vec<TimedKey>, bound: u64) -> (r: Option<u128>)
    ensures
        r == closest_time(samples@, bound),
        r is None <==> forall|j: int| 0 <= j < samples@.len() ==> samples@[j].key >= bound,
{
    let mut closest: Option<usize> = None;
    let mut min_key: u64 = bound;
    let mut k: usize = 0;
    while k < samples.len()
        invariant
            k <= samples@.len(),
            closest is None ==> min_key == bound,
            closest is None ==> forall|j: int| 0 <= j < k ==> samples@[j].key >= bound,
            closest matches Some(i) ==> {
                &&& i < k
                &&& min_key == samples@[i as int].key
                &&& min_key < bound
                &&& forall|j: int| 0 <= j < i ==> samples@[j].key > min_key
                &&& forall|j: int| i < j < k ==> samples@[j].key >= min_key
            },
        decreases samples@.len() - k,
    {
        let key = samples[k].key;
        if key < min_key {
            min_key = key;
            closest = Some(k);
        }
        k = k + 1;
    }
    proof {
        lemma_first_minimum_exists(samples@, bound);
    }
    match closest {
        Some(i) => {
            proof {
                assert(is_first_minimum(samples@, i as int, bound));
                let c = choose|c: int| is_first_minimum(samples@, c, bound);
                lemma_first_minimum_unique(samples@, i as int, c, bound);
            }
            Some(samples[i].time)
        },
        None => None,
    }
}

/// A first-order-plus-dead-time model of a step response: gain `k`, time
/// constant `tau` and dead time `theta`.
#[derive(Clone, Copy, Debug)]
pub struct FirstOrderModel<T> {
    pub k: T,
    pub tau: T,
    pub theta: T,
}

/// Why a first-order model could not be found or used.
#[derive(Clone, Copy, Debug)]
pub enum FirstOrderModelError<T> {
    NegativeTheta(T),
    NotEnoughSamples,
    TimeNotfound,
}

/// A second-order-plus-dead-time model of a step response: gain `k`, dead
/// time `theta`, damping ratio `zeta` and natural frequency `omega_n`.
#[derive(Clone, Copy, Debug)]
pub struct SecondOrderModel<T> {
    pub k: T,
    pub theta: T,
    pub zeta: T,
    pub omega_n: T,
}

/// Why a second-order model could not be found or used.
#[derive(Clone, Copy, Debug)]
pub enum SecondOrderModelError<T> {
    NegativeTheta(T),
    NotEnoughSamples,
    TimeNotfound,
    ParameterOutOfRange { parameter: T, min: T, max: T },
}

/// Every level has the same number of samples as the first one.
pub open spec fn same_length(levels: Seq<Vec<TimedKey>>) -> bool {
    forall|l: int| 0 <= l < levels.len() ==> #[trigger] levels[l]@.len() == levels[0]@.len()
}

/// Every level has a closest sample.
pub open spec fn all_found(levels: Seq<Vec<TimedKey>>, bound: u64) -> bool {
    forall|l: int| 0 <= l < levels.len() ==> (#[trigger] closest_time(levels[l]@, bound)) is Some
}

/// The times at which a step response comes closest to each of several
/// levels: one search per level, over the keys of every sample's distance
/// to that level.  `None` as soon as one level has no closest sample.
pub fn level_times(levels: &Vec<Vec<TimedKey>>, bound: u64) -> (r: Option<Vec<u128>>)
    ensures
        r is Some <==> all_found(levels@, bound),
        r matches Some(times) ==> {
            &&& times@.len() == levels@.len()
            &&& forall|l: int|
                0 <= l < levels@.len() ==> Some(#[trigger] times@[l]) == closest_time(
                    levels@[l]@,
                    bound,
                )
        },
{
    let mut times: Vec<u128> = Vec::new();
    let mut l: usize = 0;
    while l < levels.len()
        invariant
            l <= levels@.len(),
            times@.len() == l,
            forall|m: int| 0 <= m < l ==> Some(#[trigger] times@[m]) == closest_time(levels@[m]@, bound),
        decreases levels@.len() - l,
    {
        match find_time_at_value(&levels[l], bound) {
            Some(t) => times.push(t),
            None => {
                return None;
            },
        }
        l = l + 1;
    }
    assert forall|m: int| 0 <= m < levels@.len() implies (#[trigger] closest_time(
        levels@[m]@,
        bound,
    )) is Some by {
        assert(Some(times@[m]) == closest_time(levels@[m]@, bound));
    }
    Some(times)
}

/// The level times for a first-order identification: `NotEnoughSamples`
/// when the step response has no sample, `TimeNotfound` when a level has no
/// closest sample, the times (one per level, in order) otherwise.
pub fn first_order_times<T>(levels: &Vec<Vec<TimedKey>>, bound: u64) -> (r: Result<
    Vec<u128>,
    FirstOrderModelError<T>,
>)
    requires
        levels@.len() >= 1,
        same_length(levels@),
    ensures
        levels@[0]@.len() == 0 ==> r matches Err(FirstOrderModelError::NotEnoughSamples),
        levels@[0]@.len() > 0 && !all_found(levels@, bound) ==> r matches Err(
            FirstOrderModelError::TimeNotfound,
        ),
        levels@[0]@.len() > 0 && all_found(levels@, bound) ==> r is Ok,
        r matches Ok(times) ==> {
            &&& times@.len() == levels@.len()
            &&& forall|l: int|
                0 <= l < levels@.len() ==> Some(#[trigger] times@[l]) == closest_time(
                    levels@[l]@,
                    bound,
                )
        },
{
    if levels[0].len() == 0 {
        return Err(FirstOrderModelError::NotEnoughSamples);
    }
    match level_times(levels, bound) {
        Some(times) => Ok(times),
        None => Err(FirstOrderModelError::TimeNotfound),
    }
}

/// The level times for a second-order identification: `NotEnoughSamples`
/// when the step response has no sample, `TimeNotfound` when a level has no
/// closest sample, the times (one per level, in order) otherwise.
pub fn second_order_times<T>(levels: &Vec<Vec<TimedKey>>, bound: u64) -> (r: Result<
    Vec<u128>,
    SecondOrderModelError<T>,
>)
    requires
        levels@.len() >= 1,
        same_length(levels@),
    ensures
        levels@[0]@.len() == 0 ==> r matches Err(SecondOrderModelError::NotEnoughSamples),
        levels@[0]@.len() > 0 && !all_found(levels@, bound) ==> r matches Err(
            SecondOrderModelError::TimeNotfound,
        ),
        levels@[0]@.len() > 0 && all_found(levels@, bound) ==> r is Ok,
        r matches Ok(times) ==> {
            &&& times@.len() == levels@.len()
            &&& forall|l: int|
                0 <= l < levels@.len() ==> Some(#[trigger] times@[l]) == closest_time(
                    levels@[l]@,
                    bound,
                )
        },
{
    if levels[0].len() == 0 {
        return Err(SecondOrderModelError::NotEnoughSamples);
    }
    match level_times(levels, bound) {
        Some(times) => Ok(times),
        None => Err(SecondOrderModelError::TimeNotfound),
    }
}

/// The keys of `table` increase strictly.
pub open spec fn strictly_increasing(table: Seq<u64>) -> bool {
    forall|i: int, j: int| 0 <= i < j < table.len() ==> table[i] < table[j]
}

/// The pair of table positions between which `key` falls: `(i, i)` when
/// the key equals the entry at `i`, `(i, i + 1)` when it lies strictly
/// between the entries at `i` and `i + 1`, and `(0, 1)` below the first
/// entry.
pub open spec fn is_bracket(table: Seq<u64>, key: u64, lo: int, hi: int) -> bool {
    &&& 0 <= lo <= hi < table.len()
    &&& (lo == hi ==> table[lo] == key)
    &&& (hi == lo + 1 ==> (lo == 0 || table[lo] < key) && key < table[hi] && key != table[0])
    &&& (hi == lo || hi == lo + 1)
}

/// In a strictly increasing table a key has exactly one bracket: the pair
/// that `table_indexes` returns is the only one that fits.
pub proof fn lemma_bracket_unique_in_table(table: Seq<u64>, key: u64, a: (int, int), b: (int, int))
    requires
        strictly_increasing(table),
        is_bracket(table, key, a.0, a.1),
        is_bracket(table, key, b.0, b.1),
    ensures
        a == b,
{
    if a.0 < b.0 {
        assert(table[a.1] <= table[b.0]);
    } else if b.0 < a.0 {
        assert(table[b.1] <= table[a.0]);
    }
}

/// Locates `key` in a strictly increasing table that has at least two
/// entries, for interpolation between the entries found.  The key must not
/// lie above the last entry.
pub fn table_indexes(table: &Vec<u64>, key: u64) -> (r: (usize, usize))
    requires
        table@.len() >= 2,
        strictly_increasing(table@),
        key <= table@.last(),
    ensures
        is_bracket(table@, key, r.0 as int, r.1 as int),
{
    if key == table[0] {
        return (0, 0);
    }
    let last: usize = table.len() - 1;
    let mut j: usize = 1;
    while j < last
        invariant
            1 <= j <= last,
            last + 1 == table@.len(),
            table@.len() >= 2,
            strictly_increasing(table@),
            key <= table@.last(),
            key != table@[0],
            forall|i: int| 1 <= i < j ==> table@[i] < key,
        decreases last - j,
    {
        if key == table[j] {
            return (j, j);
        } else if key < table[j] {
            return (j - 1, j);
        }
        j = j + 1;
    }
    if key == table[last] {
        (last, last)
    } else {
        (last - 1, last)
    }
}

/// The bracket of a ratio in a strictly increasing table of order keys, or
/// `ParameterOutOfRange` (carrying the ratio and the table's limits) when
/// its key lies below the first entry or above the last one.
pub fn locate_in_table<T>(ratio: T, ratio_key: u64, table: &Vec<u64>, min: T, max: T) -> (r: Result<
    (usize, usize),
    SecondOrderModelError<T>,
>)
    requires
        table@.len() >= 2,
        strictly_increasing(table@),
    ensures
        (ratio_key < table@[0] || ratio_key > table@.last()) <==> r is Err,
        r matches Err(e) ==> e == (SecondOrderModelError::ParameterOutOfRange {
            parameter: ratio,
            min: min,
            max: max,
        }),
        r matches Ok(b) ==> is_bracket(table@, ratio_key, b.0 as int, b.1 as int),
{
    let last = table[table.len() - 1];
    if ratio_key < table[0] || ratio_key > last {
        return Err(SecondOrderModelError::ParameterOutOfRange { parameter: ratio, min, max });
    }
    Ok(table_indexes(table, ratio_key))
}

} // verus!
