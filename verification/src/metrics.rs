//! Counters and a histogram of durations for the reconciliations.
//!
//! Durations are kept in whole microseconds. A counter that has reached
//! the largest value it can hold stays there.

use vstd::prelude::*;
use vstd::string::*;
use crate::document::Document;
use crate::error::Error;

verus! {

/// The number of buckets of the histogram: eight bounded ones and one for
/// everything above the last bound.
pub const BUCKETS: usize = 9;

/// The pair of labels under which failures are counted.
#[derive(Clone, Debug, PartialEq, Eq)]
pub struct ErrorLabels {
    /// The name of the document.
    pub instance: String,
    /// The label of the failure.
    pub error: String,
}

/// The failures counted under one pair of labels.
#[derive(Clone, Debug, PartialEq, Eq)]
pub struct FailureCounter {
    pub labels: ErrorLabels,
    pub count: u64,
}

/// A histogram of durations.
#[derive(Clone, Debug, PartialEq, Eq)]
pub struct DurationHistogram {
    /// How many observations fell into each bucket.
    pub buckets: Vec<u64>,
    /// How many observations were made.
    pub count: u64,
    /// The sum of the observed durations, in microseconds.
    pub sum_micros: u64,
}

/// A running measurement of one reconciliation.
#[derive(Debug)]
pub struct ReconcileTimer {
    /// When the reconciliation started, in microseconds since the epoch.
    pub started_micros: i64,
}

/// The metrics of the reconciler.
#[derive(Clone, Debug, PartialEq, Eq)]
pub struct ReconcileMetrics {
    /// How many reconciliations were started.
    pub runs: u64,
    /// The failures, one counter for each pair of labels seen so far.
    pub failures: Vec<FailureCounter>,
    /// How long the reconciliations took.
    pub duration: DurationHistogram,
}

/// All metrics of the program.
#[derive(Clone, Debug, PartialEq, Eq)]
pub struct AppMetrics {
    pub reconcile: ReconcileMetrics,
}

/// The metrics as the rest of the program holds them.
#[derive(Clone, Debug, PartialEq, Eq)]
pub struct Metrics {
    pub app: AppMetrics,
}

/// A counter after one more count.
pub open spec fn bumped(c: u64) -> u64 {
    if c < u64::MAX {
        (c + 1) as u64
    } else {
        c
    }
}

/// A sum after `x` was added, held at the largest value it can take.
pub open spec fn summed(s: u64, x: u64) -> u64 {
    if s + x <= u64::MAX {
        (s + x) as u64
    } else {
        u64::MAX
    }
}

/// The bucket that a duration falls into: the first whose upper bound it
/// does not exceed. The bounds are 10 ms, 100 ms, 250 ms, 500 ms, 1 s, 5 s,
/// 15 s and 60 s; the last bucket has none.
pub open spec fn bucket_of(micros: u64) -> int {
    if micros <= 10_000 {
        0
    } else if micros <= 100_000 {
        1
    } else if micros <= 250_000 {
        2
    } else if micros <= 500_000 {
        3
    } else if micros <= 1_000_000 {
        4
    } else if micros <= 5_000_000 {
        5
    } else if micros <= 15_000_000 {
        6
    } else if micros <= 60_000_000 {
        7
    } else {
        8
    }
}

/// The time from `start` to `end` in microseconds; none where the clock
/// went back in between.
pub open spec fn elapsed(start: i64, end: i64) -> u64 {
    if end >= start {
        (end - start) as u64
    } else {
        0
    }
}

/// Whether `c` counts under the labels `instance` and `error`.
pub open spec fn has_labels(c: FailureCounter, instance: Seq<char>, error: Seq<char>) -> bool {
    c.labels.instance@ == instance && c.labels.error@ == error
}

/// The count kept in `counters` under the labels `instance` and `error`:
/// that of the first counter with these labels, nothing where there is none.
pub open spec fn failures_under(
    counters: Seq<FailureCounter>,
    instance: Seq<char>,
    error: Seq<char>,
) -> u64
    decreases counters.len(),
{
    if counters.len() == 0 {
        0
    } else if has_labels(counters[0], instance, error) {
        counters[0].count
    } else {
        failures_under(counters.drop_first(), instance, error)
    }
}

/// No two counters of `counters` have the same labels.
pub open spec fn distinct_labels(counters: Seq<FailureCounter>) -> bool {
    forall|i: int, j: int|
        0 <= i < counters.len() && 0 <= j < counters.len() && has_labels(
            #[trigger] counters[i],
            (#[trigger] counters[j]).labels.instance@,
            counters[j].labels.error@,
        ) ==> i == j
}

impl DurationHistogram {
    /// The histogram has its nine buckets.
    pub open spec fn wf(&self) -> bool {
        self.buckets@.len() == BUCKETS
    }

    /// The histogram after a duration of `micros` was observed.
    pub open spec fn observed(&self, micros: u64, after: DurationHistogram) -> bool {
        &&& after.count == bumped(self.count)
        &&& after.sum_micros == summed(self.sum_micros, micros)
        &&& after.buckets@ == self.buckets@.update(
            bucket_of(micros),
            bumped(self.buckets@[bucket_of(micros)]),
        )
    }

    /// Nothing has been observed.
    pub open spec fn is_empty(&self) -> bool {
        &&& self.count == 0
        &&& self.sum_micros == 0
        &&& self.buckets@ == Seq::new(BUCKETS as nat, |i: int| 0u64)
    }

    /// An empty histogram.
    pub fn new() -> (h: DurationHistogram)
        ensures
            h.wf(),
            h.is_empty(),
    {
        let mut buckets: Vec<u64> = Vec::new();
        let mut i: usize = 0;
        while i < BUCKETS
            invariant
                i <= BUCKETS,
                buckets@.len() == i,
                forall|j: int| 0 <= j < i ==> buckets@[j] == 0,
            decreases BUCKETS - i,
        {
            buckets.push(0);
            i += 1;
        }
        proof {
            assert(buckets@ =~= Seq::new(BUCKETS as nat, |i: int| 0u64));
        }
        DurationHistogram { buckets, count: 0, sum_micros: 0 }
    }

    /// Records one duration, given in microseconds.
    pub fn observe(&mut self, micros: u64)
        requires
            old(self).wf(),
        ensures
            final(self).wf(),
            old(self).observed(micros, *final(self)),
    {
        let index: usize = if micros <= 10_000 {
            0
        } else if micros <= 100_000 {
            1
        } else if micros <= 250_000 {
            2
        } else if micros <= 500_000 {
            3
        } else if micros <= 1_000_000 {
            4
        } else if micros <= 5_000_000 {
            5
        } else if micros <= 15_000_000 {
            6
        } else if micros <= 60_000_000 {
            7
        } else {
            8
        };
        let seen = self.buckets[index];
        self.buckets.set(index, bump(seen));
        self.count = bump(self.count);
        self.sum_micros = if self.sum_micros <= u64::MAX - micros {
            self.sum_micros + micros
        } else {
            u64::MAX
        };
    }
}

/// Counts one more, unless the counter is full.
fn bump(c: u64) -> (r: u64)
    ensures
        r == bumped(c),
{
    if c < u64::MAX {
        c + 1
    } else {
        c
    }
}

impl ReconcileMetrics {
    /// The histogram has its buckets.
    pub open spec fn wf(&self) -> bool {
        self.duration.wf()
    }

    /// Tells whether the histogram has its buckets.
    pub fn is_wf(&self) -> (r: bool)
        ensures
            r == self.wf(),
    {
        self.duration.buckets.len() == BUCKETS
    }

    /// The failures counted under the labels `instance` and `error`.
    pub open spec fn failures_of(&self, instance: Seq<char>, error: Seq<char>) -> u64 {
        failures_under(self.failures@, instance, error)
    }

    /// Nothing has been counted yet.
    pub open spec fn is_fresh(&self) -> bool {
        &&& self.runs == 0
        &&& self.failures@.len() == 0
        &&& self.duration.is_empty()
    }

    /// Metrics on which nothing has been counted yet.
    pub fn new() -> (m: ReconcileMetrics)
        ensures
            m.wf(),
            m.is_fresh(),
            distinct_labels(m.failures@),
            forall|instance: Seq<char>, error: Seq<char>| m.failures_of(instance, error) == 0,
    {
        ReconcileMetrics { runs: 0, failures: Vec::new(), duration: DurationHistogram::new() }
    }

    /// Counts one failure of the document `doc` with the failure `e`: under
    /// the name of the document and the label of the failure. The pair of
    /// labels gets its counter when it is first seen. No other count changes.
    pub fn set_failure(&mut self, doc: &Document, e: &Error)
        ensures
            distinct_labels(old(self).failures@) ==> distinct_labels(final(self).failures@),
            final(self).runs == old(self).runs,
            final(self).duration == old(self).duration,
            final(self).failures_of(doc@.name, e.label()) == bumped(
                old(self).failures_of(doc@.name, e.label()),
            ),
            forall|instance: Seq<char>, error: Seq<char>|
                !(instance == doc@.name && error == e.label()) ==> final(self).failures_of(
                    instance,
                    error,
                ) == old(self).failures_of(instance, error),
    {
        let label = e.metric_label();
        self.count_failure(doc.name.as_str(), label.as_str());
    }

    /// Counts one failure under the labels `instance` and `error`.
    pub fn count_failure(&mut self, instance: &str, error: &str)
        ensures
            distinct_labels(old(self).failures@) ==> distinct_labels(final(self).failures@),
            final(self).runs == old(self).runs,
            final(self).duration == old(self).duration,
            final(self).failures_of(instance@, error@) == bumped(
                old(self).failures_of(instance@, error@),
            ),
            forall|i: Seq<char>, e: Seq<char>|
                !(i == instance@ && e == error@) ==> final(self).failures_of(i, e) == old(
                    self,
                ).failures_of(i, e),
    {
        let wanted_instance = String::from_str(instance);
        let wanted_error = String::from_str(error);
        let mut k: usize = 0;
        while k < self.failures.len()
            invariant
                k <= self.failures.len(),
                *self == *old(self),
                wanted_instance@ == instance@,
                wanted_error@ == error@,
                forall|j: int|
                    0 <= j < k ==> !has_labels(#[trigger] self.failures@[j], instance@, error@),
            decreases self.failures.len() - k,
        {
            if self.failures[k].labels.instance == wanted_instance && self.failures[k].labels.error
                == wanted_error {
                let seen = self.failures[k].count;
                let ghost before = self.failures@;
                let entry = FailureCounter {
                    labels: ErrorLabels { instance: wanted_instance, error: wanted_error },
                    count: bump(seen),
                };
                self.failures.set(k, entry);
                proof {
                    lemma_after_bump(before, self.failures@, k as int);
                }
                return ;
            }
            k += 1;
        }
        let ghost before = self.failures@;
        let entry = FailureCounter {
            labels: ErrorLabels { instance: wanted_instance, error: wanted_error },
            count: 1,
        };
        self.failures.push(entry);
        proof {
            lemma_after_first_count(before, self.failures@);
        }
    }

    /// Counts one reconciliation and starts to measure it from `now_micros`.
    /// The measurement is recorded by `observe`.
    pub fn count_and_measure(&mut self, now_micros: i64) -> (timer: ReconcileTimer)
        ensures
            final(self).runs == bumped(old(self).runs),
            final(self).failures == old(self).failures,
            final(self).duration == old(self).duration,
            timer.started_micros == now_micros,
    {
        self.runs = bump(self.runs);
        ReconcileTimer { started_micros: now_micros }
    }

    /// Ends the measurement `timer` at `now_micros` and records how long
    /// the reconciliation took. The timer is used up: a reconciliation is
    /// recorded once.
    pub fn observe(&mut self, timer: ReconcileTimer, now_micros: i64)
        requires
            old(self).wf(),
        ensures
            final(self).wf(),
            final(self).runs == old(self).runs,
            final(self).failures == old(self).failures,
            old(self).duration.observed(
                elapsed(timer.started_micros, now_micros),
                final(self).duration,
            ),
    {
        let micros: u64 = if now_micros >= timer.started_micros {
            (now_micros as i128 - timer.started_micros as i128) as u64
        } else {
            0
        };
        self.duration.observe(micros);
    }

    /// The failures counted under the labels `instance` and `error`.
    pub fn get_failures(&self, instance: &str, error: &str) -> (r: u64)
        ensures
            r == self.failures_of(instance@, error@),
    {
        let wanted_instance = String::from_str(instance);
        let wanted_error = String::from_str(error);
        let mut k: usize = 0;
        proof {
            assert(self.failures@.skip(0) =~= self.failures@);
        }
        while k < self.failures.len()
            invariant
                k <= self.failures.len(),
                wanted_instance@ == instance@,
                wanted_error@ == error@,
                failures_under(self.failures@, instance@, error@) == failures_under(
                    self.failures@.skip(k as int),
                    instance@,
                    error@,
                ),
            decreases self.failures.len() - k,
        {
            proof {
                let rest = self.failures@.skip(k as int);
                assert(rest[0] == self.failures@[k as int]);
                assert(rest.drop_first() =~= self.failures@.skip(k as int + 1));
            }
            if self.failures[k].labels.instance == wanted_instance && self.failures[k].labels.error
                == wanted_error {
                return self.failures[k].count;
            }
            k += 1;
        }
        proof {
            assert(self.failures@.skip(self.failures.len() as int).len() == 0);
        }
        0
    }
}

/// The count under given labels is that of the first counter that has
/// them.
proof fn lemma_failures_under_at(
    counters: Seq<FailureCounter>,
    k: int,
    instance: Seq<char>,
    error: Seq<char>,
)
    requires
        0 <= k < counters.len(),
        has_labels(counters[k], instance, error),
        forall|j: int| 0 <= j < k ==> !has_labels(#[trigger] counters[j], instance, error),
    ensures
        failures_under(counters, instance, error) == counters[k].count,
    decreases k,
{
    if k > 0 {
        let rest = counters.drop_first();
        assert(rest[k - 1] == counters[k]);
        assert forall|j: int| 0 <= j < k - 1 implies !has_labels(
            #[trigger] rest[j],
            instance,
            error,
        ) by {
            assert(rest[j] == counters[j + 1]);
        }
        assert(!has_labels(counters[0], instance, error));
        lemma_failures_under_at(rest, k - 1, instance, error);
    }
}

/// Where no counter has the labels, nothing is counted under them.
proof fn lemma_failures_under_none(
    counters: Seq<FailureCounter>,
    instance: Seq<char>,
    error: Seq<char>,
)
    requires
        forall|j: int|
            0 <= j < counters.len() ==> !has_labels(#[trigger] counters[j], instance, error),
    ensures
        failures_under(counters, instance, error) == 0,
    decreases counters.len(),
{
    if counters.len() > 0 {
        let rest = counters.drop_first();
        assert forall|j: int| 0 <= j < rest.len() implies !has_labels(
            #[trigger] rest[j],
            instance,
            error,
        ) by {
            assert(rest[j] == counters[j + 1]);
        }
        assert(!has_labels(counters[0], instance, error));
        lemma_failures_under_none(rest, instance, error);
    }
}

/// Counters that agree with those of a longer list wherever the given
/// labels stand, while the rest of the longer list does not have them,
/// count the same under these labels.
proof fn lemma_failures_under_same(
    a: Seq<FailureCounter>,
    b: Seq<FailureCounter>,
    instance: Seq<char>,
    error: Seq<char>,
)
    requires
        a.len() <= b.len(),
        forall|j: int|
            0 <= j < a.len() ==> has_labels(#[trigger] a[j], instance, error) == has_labels(
                b[j],
                instance,
                error,
            ),
        forall|j: int|
            0 <= j < a.len() && has_labels(#[trigger] a[j], instance, error) ==> a[j].count
                == b[j].count,
        forall|j: int| a.len() <= j < b.len() ==> !has_labels(#[trigger] b[j], instance, error),
    ensures
        failures_under(a, instance, error) == failures_under(b, instance, error),
    decreases b.len(),
{
    if a.len() == 0 {
        lemma_failures_under_none(b, instance, error);
    } else {
        assert(has_labels(a[0], instance, error) == has_labels(b[0], instance, error));
        if has_labels(a[0], instance, error) {
        } else {
            let ra = a.drop_first();
            let rb = b.drop_first();
            assert forall|j: int| 0 <= j < ra.len() implies has_labels(
                #[trigger] ra[j],
                instance,
                error,
            ) == has_labels(rb[j], instance, error) by {
                assert(ra[j] == a[j + 1]);
                assert(rb[j] == b[j + 1]);
            }
            assert forall|j: int|
                0 <= j < ra.len() && has_labels(#[trigger] ra[j], instance, error) implies ra[j].count
                == rb[j].count by {
                assert(ra[j] == a[j + 1]);
                assert(rb[j] == b[j + 1]);
            }
            assert forall|j: int| ra.len() <= j < rb.len() implies !has_labels(
                #[trigger] rb[j],
                instance,
                error,
            ) by {
                assert(rb[j] == b[j + 1]);
            }
            lemma_failures_under_same(ra, rb, instance, error);
        }
    }
}

/// What holds after the counter at position `k` has counted one more.
proof fn lemma_after_bump(before: Seq<FailureCounter>, after: Seq<FailureCounter>, k: int)
    requires
        0 <= k < before.len(),
        forall|j: int|
            0 <= j < k ==> !has_labels(
                #[trigger] before[j],
                before[k].labels.instance@,
                before[k].labels.error@,
            ),
        after.len() == before.len(),
        forall|j: int| 0 <= j < before.len() && j != k ==> #[trigger] after[j] == before[j],
        after[k].labels.instance@ == before[k].labels.instance@,
        after[k].labels.error@ == before[k].labels.error@,
        after[k].count == bumped(before[k].count),
    ensures
        distinct_labels(before) ==> distinct_labels(after),
        failures_under(after, before[k].labels.instance@, before[k].labels.error@) == bumped(
            failures_under(before, before[k].labels.instance@, before[k].labels.error@),
        ),
        forall|i: Seq<char>, e: Seq<char>|
            !(i == before[k].labels.instance@ && e == before[k].labels.error@) ==> failures_under(
                after,
                i,
                e,
            ) == failures_under(before, i, e),
{
    let ki = before[k].labels.instance@;
    let ke = before[k].labels.error@;
    assert forall|j: int| 0 <= j < k implies !has_labels(#[trigger] after[j], ki, ke) by {
        assert(after[j] == before[j]);
    }
    lemma_failures_under_at(before, k, ki, ke);
    lemma_failures_under_at(after, k, ki, ke);
    if distinct_labels(before) {
        assert forall|a: int, b: int|
            0 <= a < after.len() && 0 <= b < after.len() && has_labels(
                #[trigger] after[a],
                (#[trigger] after[b]).labels.instance@,
                after[b].labels.error@,
            ) implies a == b by {
            assert(a != k ==> after[a] == before[a]);
            assert(b != k ==> after[b] == before[b]);
            assert(has_labels(before[a], before[b].labels.instance@, before[b].labels.error@));
        }
    }
    assert forall|i: Seq<char>, e: Seq<char>| !(i == ki && e == ke) implies failures_under(
        after,
        i,
        e,
    ) == failures_under(before, i, e) by {
        assert forall|j: int| 0 <= j < before.len() implies has_labels(
            #[trigger] before[j],
            i,
            e,
        ) == has_labels(after[j], i, e) by {
            assert(j != k ==> after[j] == before[j]);
        }
        assert forall|j: int|
            0 <= j < before.len() && has_labels(#[trigger] before[j], i, e) implies before[j].count
            == after[j].count by {
            assert(j != k ==> after[j] == before[j]);
        }
        lemma_failures_under_same(before, after, i, e);
    }
}

/// What holds after labels that had no counter got one that stands at 1.
proof fn lemma_after_first_count(before: Seq<FailureCounter>, after: Seq<FailureCounter>)
    requires
        after.len() == before.len() + 1,
        forall|j: int| 0 <= j < before.len() ==> #[trigger] after[j] == before[j],
        after.last().count == 1,
        forall|j: int|
            0 <= j < before.len() ==> !has_labels(
                #[trigger] before[j],
                after.last().labels.instance@,
                after.last().labels.error@,
            ),
    ensures
        distinct_labels(before) ==> distinct_labels(after),
        failures_under(after, after.last().labels.instance@, after.last().labels.error@) == bumped(
            failures_under(before, after.last().labels.instance@, after.last().labels.error@),
        ),
        forall|i: Seq<char>, e: Seq<char>|
            !(i == after.last().labels.instance@ && e == after.last().labels.error@)
                ==> failures_under(after, i, e) == failures_under(before, i, e),
{
    let k = before.len() as int;
    let ki = after[k].labels.instance@;
    let ke = after[k].labels.error@;
    assert forall|j: int| 0 <= j < k implies !has_labels(#[trigger] after[j], ki, ke) by {
        assert(after[j] == before[j]);
    }
    lemma_failures_under_at(after, k, ki, ke);
    lemma_failures_under_none(before, ki, ke);
    if distinct_labels(before) {
        assert forall|a: int, b: int|
            0 <= a < after.len() && 0 <= b < after.len() && has_labels(
                #[trigger] after[a],
                (#[trigger] after[b]).labels.instance@,
                after[b].labels.error@,
            ) implies a == b by {
            if a < k {
                assert(after[a] == before[a]);
            }
            if b < k {
                assert(after[b] == before[b]);
            }
            if a < k && b < k {
                assert(has_labels(before[a], before[b].labels.instance@, before[b].labels.error@));
            }
        }
    }
    assert forall|i: Seq<char>, e: Seq<char>| !(i == ki && e == ke) implies failures_under(
        after,
        i,
        e,
    ) == failures_under(before, i, e) by {
        assert forall|j: int| 0 <= j < before.len() implies has_labels(
            #[trigger] before[j],
            i,
            e,
        ) == has_labels(after[j], i, e) by {
            assert(after[j] == before[j]);
        }
        assert forall|j: int|
            0 <= j < before.len() && has_labels(#[trigger] before[j], i, e) implies before[j].count
            == after[j].count by {
            assert(after[j] == before[j]);
        }
        lemma_failures_under_same(before, after, i, e);
    }
}

} // verus!
