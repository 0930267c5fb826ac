//! Gathers the measurements of the flush worker.

use crate::stat::FlushMetrics;
use crate::wal::batch_metrics::BatchMetrics;
use crate::wal::latency::LatencySamples;
use vstd::prelude::*;

verus! {

/// The totals over all batches, and the latencies measured in each.
#[derive(Debug, Clone)]
pub struct FlushRecorder {
    /// The totals. Their percentiles are not kept up to date; see
    /// [`FlushRecorder::snapshot`].
    pub totals: FlushMetrics,
    /// Intentional waits for more write requests.
    pub group_waits: LatencySamples,
    /// The longest queue wait of each batch.
    pub queued_waits: LatencySamples,
    /// File writes.
    pub writes: LatencySamples,
    /// Filesystem syncs.
    pub syncs: LatencySamples,
    /// Whole batches.
    pub batches: LatencySamples,
}

/// A batch of which `us` was measured, if it was, has been added to the
/// samples.
pub open spec fn sampled(before: LatencySamples, after: LatencySamples, us: Option<u64>) -> bool {
    match us {
        Some(us) => after.gains(before, us),
        None => after == before,
    }
}

/// The intentional wait that a batch began with, if it did.
pub open spec fn group_wait_of(batch: BatchMetrics) -> Option<u64> {
    if batch.group_wait_us > 0 {
        Some(batch.group_wait_us)
    } else {
        None
    }
}

impl FlushRecorder {
    /// The samples are in order.
    pub open spec fn well_formed(self) -> bool {
        &&& self.group_waits.well_formed()
        &&& self.queued_waits.well_formed()
        &&& self.writes.well_formed()
        &&& self.syncs.well_formed()
        &&& self.batches.well_formed()
    }

    /// The recorder is `before` with the measurements of `batch` added.
    pub open spec fn adds(self, before: Self, batch: BatchMetrics) -> bool {
        &&& self.totals == before.totals.with_batch(batch)
        &&& sampled(before.group_waits, self.group_waits, group_wait_of(batch))
        &&& sampled(before.queued_waits, self.queued_waits, Some(batch.queued_wait_max_us))
        &&& sampled(before.writes, self.writes, Some(batch.write_us))
        &&& sampled(before.syncs, self.syncs, batch.sync_us)
        &&& sampled(before.batches, self.batches, Some(batch.batch_us))
    }

    /// `metrics` are the totals, with the percentiles of the samples.
    pub open spec fn summarized_by(self, metrics: FlushMetrics) -> bool {
        &&& metrics == FlushMetrics {
            group_wait_percentiles: metrics.group_wait_percentiles,
            queued_wait_percentiles: metrics.queued_wait_percentiles,
            write_percentiles: metrics.write_percentiles,
            sync_percentiles: metrics.sync_percentiles,
            batch_percentiles: metrics.batch_percentiles,
            ..self.totals
        }
        &&& self.group_waits.summarized_by(metrics.group_wait_percentiles)
        &&& self.queued_waits.summarized_by(metrics.queued_wait_percentiles)
        &&& self.writes.summarized_by(metrics.write_percentiles)
        &&& self.syncs.summarized_by(metrics.sync_percentiles)
        &&& self.batches.summarized_by(metrics.batch_percentiles)
    }

    /// Creates a recorder with nothing measured.
    pub fn new() -> (r: Self)
        ensures
            r.well_formed(),
            r.totals == FlushMetrics::zero(),
            r.group_waits.total == 0,
            r.queued_waits.total == 0,
            r.writes.total == 0,
            r.syncs.total == 0,
            r.batches.total == 0,
    {
        FlushRecorder {
            totals: FlushMetrics::default(),
            group_waits: LatencySamples::new(),
            queued_waits: LatencySamples::new(),
            writes: LatencySamples::new(),
            syncs: LatencySamples::new(),
            batches: LatencySamples::new(),
        }
    }

    /// Adds the measurements of a batch. A batch that began without an
    /// intentional wait, or was not synced, adds no sample of that.
    pub fn record_batch(&mut self, batch: BatchMetrics)
        requires
            old(self).well_formed(),
        ensures
            final(self).well_formed(),
            final(self).totals == old(self).totals.with_batch(batch),
            sampled(old(self).group_waits, final(self).group_waits, group_wait_of(batch)),
            sampled(
                old(self).queued_waits,
                final(self).queued_waits,
                Some(batch.queued_wait_max_us),
            ),
            sampled(old(self).writes, final(self).writes, Some(batch.write_us)),
            sampled(old(self).syncs, final(self).syncs, batch.sync_us),
            sampled(old(self).batches, final(self).batches, Some(batch.batch_us)),
            final(self).adds(*old(self), batch),
    {
        self.totals.record_batch(batch);
        if batch.group_wait_us > 0 {
            self.group_waits.record(batch.group_wait_us);
        }
        self.queued_waits.record(batch.queued_wait_max_us);
        self.writes.record(batch.write_us);
        if let Some(us) = batch.sync_us {
            self.syncs.record(us);
        }
        self.batches.record(batch.batch_us);
    }

    /// Returns the metrics gathered so far.
    pub fn snapshot(&self) -> (r: FlushMetrics)
        requires
            self.well_formed(),
        ensures
            r == (FlushMetrics {
                group_wait_percentiles: r.group_wait_percentiles,
                queued_wait_percentiles: r.queued_wait_percentiles,
                write_percentiles: r.write_percentiles,
                sync_percentiles: r.sync_percentiles,
                batch_percentiles: r.batch_percentiles,
                ..self.totals
            }),
            self.group_waits.summarized_by(r.group_wait_percentiles),
            self.queued_waits.summarized_by(r.queued_wait_percentiles),
            self.writes.summarized_by(r.write_percentiles),
            self.syncs.summarized_by(r.sync_percentiles),
            self.batches.summarized_by(r.batch_percentiles),
            self.summarized_by(r),
    {
        FlushMetrics {
            batch_count: self.totals.batch_count,
            sync_batch_count: self.totals.sync_batch_count,
            write_request_count: self.totals.write_request_count,
            write_bytes: self.totals.write_bytes,
            callback_count: self.totals.callback_count,
            group_wait_count: self.totals.group_wait_count,
            group_wait_us: self.totals.group_wait_us,
            group_wait_max_us: self.totals.group_wait_max_us,
            queued_wait_us: self.totals.queued_wait_us,
            queued_wait_max_us: self.totals.queued_wait_max_us,
            write_us: self.totals.write_us,
            write_max_us: self.totals.write_max_us,
            sync_us: self.totals.sync_us,
            sync_max_us: self.totals.sync_max_us,
            batch_us: self.totals.batch_us,
            batch_max_us: self.totals.batch_max_us,
            batch_size_max: self.totals.batch_size_max,
            batch_bytes_max: self.totals.batch_bytes_max,
            last_batch_size: self.totals.last_batch_size,
            last_batch_bytes: self.totals.last_batch_bytes,
            last_callback_count: self.totals.last_callback_count,
            last_sync_us: self.totals.last_sync_us,
            last_queued_wait_max_us: self.totals.last_queued_wait_max_us,
            group_wait_percentiles: self.group_waits.percentiles(),
            queued_wait_percentiles: self.queued_waits.percentiles(),
            write_percentiles: self.writes.percentiles(),
            sync_percentiles: self.syncs.percentiles(),
            batch_percentiles: self.batches.percentiles(),
        }
    }
}

/// The number of latencies of at most `us` microseconds among those of
/// `batches`, where `latency` tells what is measured of a batch.
pub open spec fn batches_upto(
    batches: Seq<BatchMetrics>,
    latency: spec_fn(BatchMetrics) -> Option<u64>,
    us: u64,
) -> nat
    decreases batches.len(),
{
    if batches.len() == 0 {
        0
    } else {
        batches_upto(batches.drop_last(), latency, us) + match latency(batches.last()) {
            Some(x) if x <= us => 1nat,
            _ => 0nat,
        }
    }
}

/// The number of batches of which a latency is measured.
pub open spec fn batches_measured(
    batches: Seq<BatchMetrics>,
    latency: spec_fn(BatchMetrics) -> Option<u64>,
) -> nat {
    batches_upto(batches, latency, u64::MAX)
}

/// Samples taken of one batch after the other count exactly what was measured
/// of those batches, so percentiles of the samples are percentiles over the
/// batches.
pub proof fn law_samples_count_batches(
    samples: Seq<LatencySamples>,
    batches: Seq<BatchMetrics>,
    latency: spec_fn(BatchMetrics) -> Option<u64>,
    us: u64,
    n: nat,
)
    requires
        samples.len() == batches.len() + 1,
        batches.len() <= u64::MAX,
        samples[0].total == 0,
        forall|v: u64| #[trigger] samples[0].upto(v) == 0,
        forall|i: int|
            0 <= i < batches.len() ==> sampled(
                samples[i],
                samples[i + 1],
                latency(#[trigger] batches[i]),
            ),
        n <= batches.len(),
    ensures
        samples[n as int].upto(us) == batches_upto(batches.take(n as int), latency, us),
        samples[n as int].total == batches_measured(batches.take(n as int), latency),
        samples[n as int].total <= n,
    decreases n,
{
    if n > 0 {
        let i = n - 1;
        law_samples_count_batches(samples, batches, latency, us, i as nat);
        assert(batches.take(n as int).drop_last() =~= batches.take(i));
        assert(sampled(samples[i], samples[i + 1], latency(batches[i])));
    }
}

/// One more sample of `us` microseconds, if there is one, is counted among
/// those of at most `v`.
pub open spec fn counted_upto(us: Option<u64>, v: u64) -> nat {
    match us {
        Some(us) => if us <= v {
            1
        } else {
            0
        },
        None => 0,
    }
}

/// Every batch is sampled once for each latency that it has: its longest queue
/// wait, its write and its whole time always, its sync if it had one, and its
/// intentional wait if it began with one.
pub proof fn law_every_latency_is_sampled(
    before: FlushRecorder,
    after: FlushRecorder,
    batch: BatchMetrics,
    v: u64,
)
    requires
        after.adds(before, batch),
        before.group_waits.total < u64::MAX,
        before.queued_waits.total < u64::MAX,
        before.writes.total < u64::MAX,
        before.syncs.total < u64::MAX,
        before.batches.total < u64::MAX,
    ensures
        after.queued_waits.upto(v) == before.queued_waits.upto(v) + counted_upto(
            Some(batch.queued_wait_max_us),
            v,
        ),
        after.writes.upto(v) == before.writes.upto(v) + counted_upto(Some(batch.write_us), v),
        after.syncs.upto(v) == before.syncs.upto(v) + counted_upto(batch.sync_us, v),
        after.batches.upto(v) == before.batches.upto(v) + counted_upto(Some(batch.batch_us), v),
        batch.group_wait_us > 0 ==> after.group_waits.upto(v) == before.group_waits.upto(v)
            + counted_upto(Some(batch.group_wait_us), v),
        batch.group_wait_us == 0 ==> after.group_waits == before.group_waits,
        after.batches.total == before.batches.total + 1,
        after.syncs.total == before.syncs.total + counted_upto(batch.sync_us, u64::MAX),
        after.totals == before.totals.with_batch(batch),
{
}

/// What is reported of each latency are the percentiles of its own samples, and
/// everything else is as in the totals.
pub proof fn law_each_latency_is_reported(recorder: FlushRecorder, metrics: FlushMetrics)
    requires
        recorder.summarized_by(metrics),
    ensures
        recorder.group_waits.is_percentile(50, metrics.group_wait_percentiles.p50_us),
        recorder.group_waits.is_percentile(99, metrics.group_wait_percentiles.p99_us),
        recorder.queued_waits.is_percentile(50, metrics.queued_wait_percentiles.p50_us),
        recorder.queued_waits.is_percentile(99, metrics.queued_wait_percentiles.p99_us),
        recorder.writes.is_percentile(50, metrics.write_percentiles.p50_us),
        recorder.writes.is_percentile(99, metrics.write_percentiles.p99_us),
        recorder.syncs.is_percentile(50, metrics.sync_percentiles.p50_us),
        recorder.syncs.is_percentile(99, metrics.sync_percentiles.p99_us),
        recorder.batches.is_percentile(50, metrics.batch_percentiles.p50_us),
        recorder.batches.is_percentile(99, metrics.batch_percentiles.p99_us),
        metrics.batch_count == recorder.totals.batch_count,
        metrics.sync_batch_count == recorder.totals.sync_batch_count,
        metrics.write_request_count == recorder.totals.write_request_count,
        metrics.write_bytes == recorder.totals.write_bytes,
        metrics.callback_count == recorder.totals.callback_count,
        metrics.group_wait_us == recorder.totals.group_wait_us,
        metrics.queued_wait_us == recorder.totals.queued_wait_us,
        metrics.write_us == recorder.totals.write_us,
        metrics.sync_us == recorder.totals.sync_us,
        metrics.batch_us == recorder.totals.batch_us,
        metrics.last_sync_us == recorder.totals.last_sync_us,
{
}

} // verus!
