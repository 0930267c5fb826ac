//! Percentiles of latencies.
//!
//! Latencies are counted in whole microseconds, so equal ones share an entry
//! and percentiles are exact.

use crate::stat::FlushLatencyPercentiles;
use vstd::prelude::*;

verus! {

/// How often a latency was measured.
#[derive(Debug, Clone, Copy, PartialEq, Eq)]
pub struct LatencyCount {
    /// The latency, in microseconds.
    pub us: u64,
    /// How often it was measured.
    pub count: u64,
}

/// The number of measurements of at most `us` microseconds.
pub open spec fn measured_upto(counts: Seq<LatencyCount>, us: u64) -> nat
    decreases counts.len(),
{
    if counts.len() == 0 {
        0
    } else {
        measured_upto(counts.drop_last(), us) + if counts.last().us <= us {
            counts.last().count as nat
        } else {
            0
        }
    }
}

/// The latencies measured so far, each with the number of times it was
/// measured, in increasing order.
#[derive(Debug, Clone)]
pub struct LatencySamples {
    /// The latencies.
    pub counts: Vec<LatencyCount>,
    /// How many measurements there are.
    pub total: u64,
}

impl LatencySamples {
    /// The number of measurements of at most `us` microseconds.
    pub open spec fn upto(self, us: u64) -> nat {
        measured_upto(self.counts@, us)
    }

    /// The latencies are in increasing order, and the total is right.
    pub open spec fn well_formed(self) -> bool {
        &&& forall|i: int, j: int|
            0 <= i < j < self.counts@.len() ==> self.counts@[i].us < self.counts@[j].us
        &&& self.total == self.upto(u64::MAX)
    }

    /// The samples are those of `before` with one more measurement of `us`
    /// microseconds. When no more can be counted, nothing changes.
    pub open spec fn gains(self, before: Self, us: u64) -> bool {
        if before.total == u64::MAX {
            self == before
        } else {
            &&& self.total == before.total + 1
            &&& forall|v: u64|
                #[trigger] self.upto(v) == before.upto(v) + if us <= v {
                    1nat
                } else {
                    0nat
                }
        }
    }

    /// `us` is the `p`-th percentile: the least latency such that at least
    /// `p` percent of the measurements do not exceed it. It is 0 if nothing
    /// was measured.
    pub open spec fn is_percentile(self, p: nat, us: u64) -> bool {
        if self.total == 0 {
            us == 0
        } else {
            &&& self.upto(us) * 100 >= p * self.total
            &&& forall|v: u64| v < us ==> #[trigger] self.upto(v) * 100 < p * self.total
        }
    }

    /// The percentiles that are reported.
    pub open spec fn summarized_by(self, r: FlushLatencyPercentiles) -> bool {
        &&& self.is_percentile(50, r.p50_us)
        &&& self.is_percentile(90, r.p90_us)
        &&& self.is_percentile(99, r.p99_us)
    }

    /// Creates samples with nothing measured.
    pub fn new() -> (r: Self)
        ensures
            r.well_formed(),
            r.total == 0,
            forall|v: u64| #[trigger] r.upto(v) == 0,
    {
        LatencySamples { counts: Vec::new(), total: 0 }
    }

    /// Adds a measurement of `us` microseconds.
    pub fn record(&mut self, us: u64)
        requires
            old(self).well_formed(),
        ensures
            final(self).well_formed(),
            final(self).gains(*old(self), us),
    {
        if self.total == u64::MAX {
            return;
        }
        let mut i: usize = 0;
        while i < self.counts.len() && self.counts[i].us < us
            invariant
                i <= self.counts@.len(),
                forall|j: int| 0 <= j < i ==> self.counts@[j].us < us,
            decreases self.counts@.len() - i,
        {
            i = i + 1;
        }
        let ghost before = self.counts@;
        if i < self.counts.len() && self.counts[i].us == us {
            let count: u64 = self.counts[i].count;
            proof {
                lemma_count_within(before, i as int);
                assert forall|v: u64| #[trigger] measured_upto(
                    before.update(i as int, LatencyCount { us, count: (count + 1) as u64 }),
                    v,
                ) == measured_upto(before, v) + if us <= v {
                    1nat
                } else {
                    0nat
                } by {
                    lemma_upto_update(before, i as int, v);
                }
            }
            self.counts.set(i, LatencyCount { us, count: count + 1 });
        } else {
            proof {
                assert forall|v: u64| #[trigger] measured_upto(
                    before.insert(i as int, LatencyCount { us, count: 1 }),
                    v,
                ) == measured_upto(before, v) + if us <= v {
                    1nat
                } else {
                    0nat
                } by {
                    lemma_upto_insert(before, i as int, us, v);
                }
            }
            self.counts.insert(i, LatencyCount { us, count: 1 });
        }
        self.total = self.total + 1;
    }

    /// Returns the `p`-th percentile.
    pub fn percentile(&self, p: u64) -> (r: u64)
        requires
            self.well_formed(),
            0 < p <= 100,
        ensures
            self.is_percentile(p as nat, r),
    {
        if self.total == 0 {
            return 0;
        }
        let total: u64 = self.total;
        assert(0 < p * total <= 100 * u64::MAX) by (nonlinear_arith)
            requires
                0 < p <= 100,
                0 < total,
        ;
        let rank: u128 = p as u128 * total as u128;
        let mut seen: u128 = 0;
        let mut i: usize = 0;
        while i < self.counts.len()
            invariant
                self.well_formed(),
                0 < p <= 100,
                0 < self.total,
                rank == p * self.total,
                i <= self.counts@.len(),
                seen == measured_upto(self.counts@.take(i as int), u64::MAX),
                seen * 100 < rank,
            decreases self.counts@.len() - i,
        {
            let ghost counts = self.counts@;
            assert(counts.take(i + 1).drop_last() =~= counts.take(i as int));
            proof {
                lemma_upto_prefix(counts, i + 1, u64::MAX);
            }
            seen = seen + self.counts[i].count as u128;
            if seen * 100 >= rank {
                proof {
                    let us = counts[i as int].us;
                    lemma_upto_is_prefix(counts, i + 1, us);
                    assert forall|v: u64| v < us implies #[trigger] self.upto(v) * 100 < p
                        * self.total by {
                        lemma_upto_prefix_bound(counts, i as int, v);
                    }
                }
                return self.counts[i].us;
            }
            i = i + 1;
        }
        proof {
            assert(self.counts@.take(i as int) =~= self.counts@);
            assert(self.total * 100 < p * self.total) by (nonlinear_arith)
                requires
                    seen == self.total,
                    seen * 100 < rank,
                    rank == p * self.total,
            ;
            assert(p * self.total <= 100 * self.total) by (nonlinear_arith)
                requires
                    p <= 100,
            ;
        }
        0
    }

    /// Returns the percentiles that are reported.
    pub fn percentiles(&self) -> (r: FlushLatencyPercentiles)
        requires
            self.well_formed(),
        ensures
            self.summarized_by(r),
    {
        FlushLatencyPercentiles {
            p50_us: self.percentile(50),
            p90_us: self.percentile(90),
            p99_us: self.percentile(99),
        }
    }
}

/// No count exceeds the number of measurements.
proof fn lemma_count_within(counts: Seq<LatencyCount>, i: int)
    requires
        0 <= i < counts.len(),
    ensures
        counts[i].count <= measured_upto(counts, u64::MAX),
    decreases counts.len(),
{
    if i < counts.len() - 1 {
        lemma_count_within(counts.drop_last(), i);
    }
}

proof fn lemma_upto_update(counts: Seq<LatencyCount>, i: int, v: u64)
    requires
        0 <= i < counts.len(),
        counts[i].count < u64::MAX,
    ensures
        ({
            let more = LatencyCount { count: (counts[i].count + 1) as u64, ..counts[i] };
            measured_upto(counts.update(i, more), v) == measured_upto(counts, v)
                + if counts[i].us <= v {
                1nat
            } else {
                0nat
            }
        }),
    decreases counts.len(),
{
    let more = LatencyCount { count: (counts[i].count + 1) as u64, ..counts[i] };
    let before = counts.drop_last();
    if i == counts.len() - 1 {
        assert(counts.update(i, more).drop_last() =~= before);
    } else {
        lemma_upto_update(before, i, v);
        assert(counts.update(i, more).drop_last() =~= before.update(i, more));
    }
}

proof fn lemma_upto_insert(counts: Seq<LatencyCount>, i: int, us: u64, v: u64)
    requires
        0 <= i <= counts.len(),
    ensures
        measured_upto(counts.insert(i, LatencyCount { us, count: 1 }), v) == measured_upto(
            counts,
            v,
        ) + if us <= v {
            1nat
        } else {
            0nat
        },
    decreases counts.len(),
{
    let one = LatencyCount { us, count: 1 };
    if i == counts.len() {
        assert(counts.insert(i, one).drop_last() =~= counts);
    } else {
        lemma_upto_insert(counts.drop_last(), i, us, v);
        assert(counts.insert(i, one).drop_last() =~= counts.drop_last().insert(i, one));
    }
}

/// The first latencies account for no more measurements than all.
proof fn lemma_upto_prefix(counts: Seq<LatencyCount>, i: int, v: u64)
    requires
        0 <= i <= counts.len(),
    ensures
        measured_upto(counts.take(i), v) <= measured_upto(counts, v),
    decreases counts.len(),
{
    if i == counts.len() {
        assert(counts.take(i) =~= counts);
    } else {
        lemma_upto_prefix(counts.drop_last(), i, v);
        assert(counts.drop_last().take(i) =~= counts.take(i));
    }
}

/// If the latencies from the `i`-th on exceed `v`, only those before it can
/// be counted.
proof fn lemma_upto_prefix_bound(counts: Seq<LatencyCount>, i: int, v: u64)
    requires
        0 <= i <= counts.len(),
        forall|j: int| i <= j < counts.len() ==> v < counts[j].us,
    ensures
        measured_upto(counts, v) == measured_upto(counts.take(i), v),
        measured_upto(counts, v) <= measured_upto(counts.take(i), u64::MAX),
    decreases counts.len(),
{
    if i == counts.len() {
        assert(counts.take(i) =~= counts);
        lemma_upto_grows(counts, v, u64::MAX);
    } else {
        lemma_upto_prefix_bound(counts.drop_last(), i, v);
        assert(counts.drop_last().take(i) =~= counts.take(i));
    }
}

/// If exactly the first `i` latencies do not exceed `v`, those are counted.
proof fn lemma_upto_is_prefix(counts: Seq<LatencyCount>, i: int, v: u64)
    requires
        0 <= i <= counts.len(),
        forall|j: int| 0 <= j < i ==> counts[j].us <= v,
        forall|j: int| i <= j < counts.len() ==> v < counts[j].us,
    ensures
        measured_upto(counts, v) == measured_upto(counts.take(i), u64::MAX),
    decreases counts.len(),
{
    if counts.len() == 0 {
    } else if i == counts.len() {
        lemma_upto_is_prefix(counts.drop_last(), i - 1, v);
        assert(counts.take(i) =~= counts);
        assert(counts.drop_last().take(i - 1) =~= counts.drop_last());
    } else {
        lemma_upto_is_prefix(counts.drop_last(), i, v);
        assert(counts.drop_last().take(i) =~= counts.take(i));
    }
}

/// Of more latencies there are not fewer measurements.
proof fn lemma_upto_grows(counts: Seq<LatencyCount>, v: u64, w: u64)
    requires
        v <= w,
    ensures
        measured_upto(counts, v) <= measured_upto(counts, w),
    decreases counts.len(),
{
    if counts.len() > 0 {
        lemma_upto_grows(counts.drop_last(), v, w);
    }
}

/// There is one `p`-th percentile.
pub proof fn law_percentile_is_unique(samples: LatencySamples, p: nat, a: u64, b: u64)
    requires
        samples.is_percentile(p, a),
        samples.is_percentile(p, b),
    ensures
        a == b,
{
    if samples.total > 0 {
        if a < b {
            assert(samples.upto(a) * 100 < p * samples.total);
        } else if b < a {
            assert(samples.upto(b) * 100 < p * samples.total);
        }
    }
}

/// A higher percentile is not smaller.
pub proof fn law_percentiles_are_ordered(samples: LatencySamples, p: nat, q: nat, a: u64, b: u64)
    requires
        p <= q,
        samples.is_percentile(p, a),
        samples.is_percentile(q, b),
    ensures
        a <= b,
{
    if samples.total > 0 && b < a {
        assert(samples.upto(b) * 100 < p * samples.total);
        assert(p * samples.total <= q * samples.total) by (nonlinear_arith)
            requires
                p <= q,
        ;
    }
}

/// A percentile splits the measurements: at least `p` percent of them do not
/// exceed it, fewer than `p` percent are below it, and it was measured itself.
pub proof fn law_percentile_splits_the_measurements(samples: LatencySamples, p: nat, us: u64)
    requires
        samples.well_formed(),
        samples.total > 0,
        0 < p <= 100,
        samples.is_percentile(p, us),
    ensures
        samples.upto(us) * 100 >= p * samples.total,
        us > 0 ==> samples.upto((us - 1) as u64) * 100 < p * samples.total,
        exists|i: int|
            0 <= i < samples.counts@.len() && (#[trigger] samples.counts@[i]).us == us
                && samples.counts@[i].count > 0,
{
    let below = if us > 0 {
        samples.upto((us - 1) as u64)
    } else {
        0
    };
    assert(samples.upto(us) > below) by (nonlinear_arith)
        requires
            samples.upto(us) * 100 >= p * samples.total,
            us > 0 ==> below * 100 < p * samples.total,
            us == 0 ==> below == 0,
            p > 0,
            samples.total > 0,
    ;
    lemma_measured_at(samples.counts@, us);
}

/// If more measurements do not exceed `us` than are below it, it was measured.
proof fn lemma_measured_at(counts: Seq<LatencyCount>, us: u64)
    requires
        measured_upto(counts, us) > if us > 0 {
            measured_upto(counts, (us - 1) as u64)
        } else {
            0
        },
    ensures
        exists|i: int|
            0 <= i < counts.len() && (#[trigger] counts[i]).us == us && counts[i].count > 0,
    decreases counts.len(),
{
    let last = counts.len() - 1;
    if counts.len() > 0 {
        if counts[last].us == us && counts[last].count > 0 {
        } else {
            lemma_measured_at(counts.drop_last(), us);
            let i = choose|i: int|
                0 <= i < counts.drop_last().len() && (#[trigger] counts.drop_last()[i]).us == us
                    && counts.drop_last()[i].count > 0;
            assert(counts[i].us == us);
        }
    }
}

/// The reported percentiles are those at one half, nine tenths and
/// ninety-nine hundredths of the measurements, in increasing order.
pub proof fn law_reported_percentiles(samples: LatencySamples, r: FlushLatencyPercentiles)
    requires
        samples.well_formed(),
        samples.summarized_by(r),
    ensures
        samples.total > 0 ==> {
            &&& samples.upto(r.p50_us) * 100 >= 50 * samples.total
            &&& samples.upto(r.p90_us) * 100 >= 90 * samples.total
            &&& samples.upto(r.p99_us) * 100 >= 99 * samples.total
            &&& r.p50_us > 0 ==> samples.upto((r.p50_us - 1) as u64) * 100 < 50 * samples.total
            &&& r.p90_us > 0 ==> samples.upto((r.p90_us - 1) as u64) * 100 < 90 * samples.total
            &&& r.p99_us > 0 ==> samples.upto((r.p99_us - 1) as u64) * 100 < 99 * samples.total
        },
        samples.total == 0 ==> r.p50_us == 0 && r.p90_us == 0 && r.p99_us == 0,
        r.p50_us <= r.p90_us <= r.p99_us,
{
    law_percentiles_are_ordered(samples, 50, 90, r.p50_us, r.p90_us);
    law_percentiles_are_ordered(samples, 90, 99, r.p90_us, r.p99_us);
}

} // verus!
