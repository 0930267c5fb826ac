//! Statistics.

use crate::chunk::chunk_id::ChunkId;
use crate::num::format_pad9_u64;
use crate::num::format_u64;
use crate::wal::batch_metrics::BatchMetrics;
use std::fmt;
use vstd::prelude::*;
use vstd::string::StringExecFns;

verus! {

/// Aggregated flush worker metrics.
#[derive(Debug, Clone, PartialEq, Eq)]
pub struct FlushMetrics {
    /// Number of write batches processed by the flush worker.
    pub batch_count: u64,
    /// Number of batches that required a filesystem sync.
    pub sync_batch_count: u64,
    /// Number of write requests included in all batches.
    pub write_request_count: u64,
    /// Total bytes written by the flush worker.
    pub write_bytes: u64,
    /// Number of callbacks sent after write batches.
    pub callback_count: u64,
    /// Number of times the flush worker intentionally waited for batching.
    pub group_wait_count: u64,
    /// Total intentional group-commit wait time, in microseconds.
    pub group_wait_us: u64,
    /// Maximum intentional group-commit wait time, in microseconds.
    pub group_wait_max_us: u64,
    /// Total request queue wait before a batch starts writing, in
    /// microseconds.
    pub queued_wait_us: u64,
    /// Maximum request queue wait before a batch starts writing, in
    /// microseconds.
    pub queued_wait_max_us: u64,
    /// Total file write time, in microseconds.
    pub write_us: u64,
    /// Maximum file write time for one batch, in microseconds.
    pub write_max_us: u64,
    /// Total filesystem sync time, in microseconds.
    pub sync_us: u64,
    /// Maximum filesystem sync time for one batch, in microseconds.
    pub sync_max_us: u64,
    /// Total batch processing time, in microseconds.
    pub batch_us: u64,
    /// Maximum batch processing time, in microseconds.
    pub batch_max_us: u64,
    /// Largest number of write requests in one batch.
    pub batch_size_max: u64,
    /// Largest number of bytes written by one batch.
    pub batch_bytes_max: u64,
    /// Number of write requests in the latest batch.
    pub last_batch_size: u64,
    /// Number of bytes written by the latest batch.
    pub last_batch_bytes: u64,
    /// Number of callbacks sent by the latest batch.
    pub last_callback_count: u64,
    /// Filesystem sync duration of the latest batch, in microseconds.
    pub last_sync_us: u64,
    /// Request queue wait maximum of the latest batch, in microseconds.
    pub last_queued_wait_max_us: u64,
    /// Intentional group-commit wait latency percentiles, in microseconds.
    pub group_wait_percentiles: FlushLatencyPercentiles,
    /// Per-batch max request queue wait latency percentiles, in microseconds.
    pub queued_wait_percentiles: FlushLatencyPercentiles,
    /// File write latency percentiles, in microseconds.
    pub write_percentiles: FlushLatencyPercentiles,
    /// Filesystem sync latency percentiles, in microseconds.
    pub sync_percentiles: FlushLatencyPercentiles,
    /// Whole batch processing latency percentiles, in microseconds.
    pub batch_percentiles: FlushLatencyPercentiles,
}

/// Percentiles for one flush worker latency dimension.
#[derive(Debug, Clone, PartialEq, Eq)]
pub struct FlushLatencyPercentiles {
    pub p50_us: u64,
    pub p90_us: u64,
    pub p99_us: u64,
}

impl Default for FlushLatencyPercentiles {
    fn default() -> (r: Self)
        ensures
            r == Self::zero(),
    {
        FlushLatencyPercentiles { p50_us: 0, p90_us: 0, p99_us: 0 }
    }
}

impl FlushLatencyPercentiles {
    /// No latency measured.
    pub open spec fn zero() -> Self {
        FlushLatencyPercentiles { p50_us: 0, p90_us: 0, p99_us: 0 }
    }
}

impl Default for FlushMetrics {
    fn default() -> (r: Self)
        ensures
            r == Self::zero(),
    {
        FlushMetrics {
            batch_count: 0,
            sync_batch_count: 0,
            write_request_count: 0,
            write_bytes: 0,
            callback_count: 0,
            group_wait_count: 0,
            group_wait_us: 0,
            group_wait_max_us: 0,
            queued_wait_us: 0,
            queued_wait_max_us: 0,
            write_us: 0,
            write_max_us: 0,
            sync_us: 0,
            sync_max_us: 0,
            batch_us: 0,
            batch_max_us: 0,
            batch_size_max: 0,
            batch_bytes_max: 0,
            last_batch_size: 0,
            last_batch_bytes: 0,
            last_callback_count: 0,
            last_sync_us: 0,
            last_queued_wait_max_us: 0,
            group_wait_percentiles: FlushLatencyPercentiles::default(),
            queued_wait_percentiles: FlushLatencyPercentiles::default(),
            write_percentiles: FlushLatencyPercentiles::default(),
            sync_percentiles: FlushLatencyPercentiles::default(),
            batch_percentiles: FlushLatencyPercentiles::default(),
        }
    }
}

/// Statistics about a single chunk in the WAL.
#[derive(Debug, Clone)]
pub struct ChunkStat<Chkp> {
    /// Unique identifier for this chunk.
    pub chunk_id: ChunkId,
    /// Number of records stored in this chunk.
    pub records_count: u64,
    /// Global offset of the first record in this chunk.
    pub global_start: u64,
    /// Global offset after the last record in this chunk.
    pub global_end: u64,
    /// Size of the chunk in bytes.
    pub size: u64,
    /// Checkpoint stored for this chunk.
    pub log_state: Chkp,
}

/// The larger of two numbers.
pub open spec fn larger(a: u64, b: u64) -> u64 {
    if a < b {
        b
    } else {
        a
    }
}

/// Returns the larger of two numbers.
fn max_of(a: u64, b: u64) -> (r: u64)
    ensures
        r == larger(a, b),
{
    if a < b {
        b
    } else {
        a
    }
}

impl FlushMetrics {
    /// Nothing measured.
    pub open spec fn zero() -> Self {
        FlushMetrics {
            batch_count: 0,
            sync_batch_count: 0,
            write_request_count: 0,
            write_bytes: 0,
            callback_count: 0,
            group_wait_count: 0,
            group_wait_us: 0,
            group_wait_max_us: 0,
            queued_wait_us: 0,
            queued_wait_max_us: 0,
            write_us: 0,
            write_max_us: 0,
            sync_us: 0,
            sync_max_us: 0,
            batch_us: 0,
            batch_max_us: 0,
            batch_size_max: 0,
            batch_bytes_max: 0,
            last_batch_size: 0,
            last_batch_bytes: 0,
            last_callback_count: 0,
            last_sync_us: 0,
            last_queued_wait_max_us: 0,
            group_wait_percentiles: FlushLatencyPercentiles::zero(),
            queued_wait_percentiles: FlushLatencyPercentiles::zero(),
            write_percentiles: FlushLatencyPercentiles::zero(),
            sync_percentiles: FlushLatencyPercentiles::zero(),
            batch_percentiles: FlushLatencyPercentiles::zero(),
        }
    }

    /// The metrics after one more batch. Totals and counts wrap around. The
    /// percentiles stay as they are: they follow from the latencies of all
    /// batches, which `FlushRecorder` keeps.
    pub open spec fn with_batch(self, batch: BatchMetrics) -> Self {
        let sync_us = match batch.sync_us {
            Some(us) => us,
            None => 0,
        };
        FlushMetrics {
            batch_count: self.batch_count.wrapping_add(1),
            sync_batch_count: if batch.sync_us is Some {
                self.sync_batch_count.wrapping_add(1)
            } else {
                self.sync_batch_count
            },
            write_request_count: self.write_request_count.wrapping_add(batch.size),
            write_bytes: self.write_bytes.wrapping_add(batch.bytes),
            callback_count: self.callback_count.wrapping_add(batch.callbacks),
            group_wait_count: if batch.group_wait_us > 0 {
                self.group_wait_count.wrapping_add(1)
            } else {
                self.group_wait_count
            },
            group_wait_us: self.group_wait_us.wrapping_add(batch.group_wait_us),
            group_wait_max_us: larger(self.group_wait_max_us, batch.group_wait_us),
            queued_wait_us: self.queued_wait_us.wrapping_add(batch.queued_wait_us),
            queued_wait_max_us: larger(self.queued_wait_max_us, batch.queued_wait_max_us),
            write_us: self.write_us.wrapping_add(batch.write_us),
            write_max_us: larger(self.write_max_us, batch.write_us),
            sync_us: self.sync_us.wrapping_add(sync_us),
            sync_max_us: larger(self.sync_max_us, sync_us),
            batch_us: self.batch_us.wrapping_add(batch.batch_us),
            batch_max_us: larger(self.batch_max_us, batch.batch_us),
            batch_size_max: larger(self.batch_size_max, batch.size),
            batch_bytes_max: larger(self.batch_bytes_max, batch.bytes),
            last_batch_size: batch.size,
            last_batch_bytes: batch.bytes,
            last_callback_count: batch.callbacks,
            last_sync_us: sync_us,
            last_queued_wait_max_us: batch.queued_wait_max_us,
            ..self
        }
    }

    /// Adds the measurements of a batch to the totals, counts and maxima. The
    /// percentiles are set by `FlushRecorder::snapshot`.
    pub fn record_batch(&mut self, batch: BatchMetrics)
        ensures
            *final(self) == old(self).with_batch(batch),
    {
        let sync_us: u64 = match batch.sync_us {
            Some(us) => us,
            None => 0,
        };
        self.batch_count = self.batch_count.wrapping_add(1);
        if batch.sync_us.is_some() {
            self.sync_batch_count = self.sync_batch_count.wrapping_add(1);
        }
        self.write_request_count = self.write_request_count.wrapping_add(batch.size);
        self.write_bytes = self.write_bytes.wrapping_add(batch.bytes);
        self.callback_count = self.callback_count.wrapping_add(batch.callbacks);
        if batch.group_wait_us > 0 {
            self.group_wait_count = self.group_wait_count.wrapping_add(1);
        }
        self.group_wait_us = self.group_wait_us.wrapping_add(batch.group_wait_us);
        self.group_wait_max_us = max_of(self.group_wait_max_us, batch.group_wait_us);
        self.queued_wait_us = self.queued_wait_us.wrapping_add(batch.queued_wait_us);
        self.queued_wait_max_us = max_of(self.queued_wait_max_us, batch.queued_wait_max_us);
        self.write_us = self.write_us.wrapping_add(batch.write_us);
        self.write_max_us = max_of(self.write_max_us, batch.write_us);
        self.sync_us = self.sync_us.wrapping_add(sync_us);
        self.sync_max_us = max_of(self.sync_max_us, sync_us);
        self.batch_us = self.batch_us.wrapping_add(batch.batch_us);
        self.batch_max_us = max_of(self.batch_max_us, batch.batch_us);
        self.batch_size_max = max_of(self.batch_size_max, batch.size);
        self.batch_bytes_max = max_of(self.batch_bytes_max, batch.bytes);
        self.last_batch_size = batch.size;
        self.last_batch_bytes = batch.bytes;
        self.last_callback_count = batch.callbacks;
        self.last_sync_us = sync_us;
        self.last_queued_wait_max_us = batch.queued_wait_max_us;
    }
}

/// `{:?}` of a value, as its type renders it. Nothing is claimed of the
/// rendering: it is up to the type.
#[verifier::external_body]
fn debug_value<T: fmt::Debug>(value: &T) -> String {
    format!("{:?}", value)
}

impl<Chkp> ChunkStat<Chkp> {
    /// The statistics as shown to people, with the checkpoint rendered as
    /// `log_state`.
    pub open spec fn text(self, log_state: Seq<char>) -> Seq<char> {
        "ChunkStat("@ + self.chunk_id.text() + "){records: "@ + crate::num::decimal(
            self.records_count as nat,
        ) + ", ["@ + crate::num::padded9_u64(self.global_start) + ", "@ + crate::num::padded9_u64(
            self.global_end,
        ) + "), size: "@ + crate::num::padded9_u64(self.size) + ", log_state: "@ + log_state + "}"@
    }

    /// Renders the statistics for people. `log_state` is the rendering of the
    /// checkpoint.
    pub fn render(&self, log_state: &str) -> (r: String)
        ensures
            r@ == self.text(log_state@),
    {
        let mut s = String::from_str("ChunkStat(");
        s.append(self.chunk_id.to_string().as_str());
        s.append("){records: ");
        s.append(format_u64(self.records_count).as_str());
        s.append(", [");
        s.append(format_pad9_u64(self.global_start).as_str());
        s.append(", ");
        s.append(format_pad9_u64(self.global_end).as_str());
        s.append("), size: ");
        s.append(format_pad9_u64(self.size).as_str());
        s.append(", log_state: ");
        s.append(log_state);
        s.append("}");
        s
    }
}

impl<Chkp: fmt::Debug> ChunkStat<Chkp> {
    /// `log_state` is a text that the checkpoint renders itself as for
    /// debugging: the outcome of calling `debug_value` on it.
    pub closed spec fn renders_log_state(self, log_state: Seq<char>) -> bool {
        exists|t: String|
            #[trigger] call_ensures(debug_value::<Chkp>, (&self.log_state,), t) && t@ == log_state
    }

    /// Renders the statistics for people, with the checkpoint as it renders
    /// itself for debugging.
    pub fn to_string(&self) -> (r: String)
        ensures
            exists|log_state: Seq<char>|
                self.renders_log_state(log_state) && r@ == #[trigger] self.text(log_state),
    {
        let log_state = debug_value(&self.log_state);
        self.render(log_state.as_str())
    }
}

/// The metrics after some batches.
pub open spec fn metrics_after(batches: Seq<BatchMetrics>) -> FlushMetrics
    decreases batches.len(),
{
    if batches.len() == 0 {
        FlushMetrics::zero()
    } else {
        metrics_after(batches.drop_last()).with_batch(batches.last())
    }
}

/// The sum of a measurement over some batches.
pub open spec fn sum_over(batches: Seq<BatchMetrics>, f: spec_fn(BatchMetrics) -> nat) -> nat
    decreases batches.len(),
{
    if batches.len() == 0 {
        0
    } else {
        sum_over(batches.drop_last(), f) + f(batches.last())
    }
}

/// `n` is the total of a measurement, as far as it can be counted.
pub open spec fn is_total(
    n: u64,
    batches: Seq<BatchMetrics>,
    f: spec_fn(BatchMetrics) -> nat,
) -> bool {
    sum_over(batches, f) <= u64::MAX ==> n == sum_over(batches, f)
}

/// `n` is the largest of a measurement; zero if there is none.
pub open spec fn is_largest(
    n: u64,
    batches: Seq<BatchMetrics>,
    f: spec_fn(BatchMetrics) -> nat,
) -> bool {
    &&& forall|i: int| 0 <= i < batches.len() ==> f(#[trigger] batches[i]) <= n
    &&& n == 0 || exists|i: int| 0 <= i < batches.len() && f(#[trigger] batches[i]) == n
}

proof fn lemma_total(
    before: u64,
    after: u64,
    batches: Seq<BatchMetrics>,
    f: spec_fn(BatchMetrics) -> nat,
)
    requires
        batches.len() > 0,
        is_total(before, batches.drop_last(), f),
        before + f(batches.last()) <= u64::MAX ==> after == before + f(batches.last()),
    ensures
        is_total(after, batches, f),
{
}

proof fn lemma_largest(
    before: u64,
    after: u64,
    batches: Seq<BatchMetrics>,
    f: spec_fn(BatchMetrics) -> nat,
)
    requires
        batches.len() > 0,
        is_largest(before, batches.drop_last(), f),
        after >= before,
        after >= f(batches.last()),
        after == before || after == f(batches.last()),
    ensures
        is_largest(after, batches, f),
{
    let earlier = batches.drop_last();
    assert forall|i: int| 0 <= i < batches.len() implies f(#[trigger] batches[i]) <= after by {
        if i < earlier.len() {
            assert(f(earlier[i]) <= before);
        }
    }
    if after != 0 {
        if after == f(batches.last()) {
            assert(f(batches[batches.len() - 1]) == after);
        } else {
            let i = choose|i: int| 0 <= i < earlier.len() && f(#[trigger] earlier[i]) == before;
            assert(f(batches[i]) == after);
        }
    }
}

/// The time of a batch's sync; zero if there was none.
pub open spec fn sync_time_of(batch: BatchMetrics) -> nat {
    match batch.sync_us {
        Some(us) => us as nat,
        None => 0,
    }
}

/// The metrics over some batches are the totals of what was measured of each,
/// as far as they can be counted, the largest measurements, and those of the
/// latest batch. Batches with a sync, and with an intentional wait, are
/// counted separately.
pub proof fn law_metrics_sum_up_the_batches(batches: Seq<BatchMetrics>)
    ensures
        ({
            let m = metrics_after(batches);
            &&& is_total(m.batch_count, batches, |b: BatchMetrics| 1)
            &&& is_total(
                m.sync_batch_count,
                batches,
                |b: BatchMetrics| if b.sync_us is Some { 1 } else { 0 },
            )
            &&& is_total(m.write_request_count, batches, |b: BatchMetrics| b.size as nat)
            &&& is_total(m.write_bytes, batches, |b: BatchMetrics| b.bytes as nat)
            &&& is_total(m.callback_count, batches, |b: BatchMetrics| b.callbacks as nat)
            &&& is_total(
                m.group_wait_count,
                batches,
                |b: BatchMetrics| if b.group_wait_us > 0 { 1 } else { 0 },
            )
            &&& is_total(m.group_wait_us, batches, |b: BatchMetrics| b.group_wait_us as nat)
            &&& is_total(m.queued_wait_us, batches, |b: BatchMetrics| b.queued_wait_us as nat)
            &&& is_total(m.write_us, batches, |b: BatchMetrics| b.write_us as nat)
            &&& is_total(m.sync_us, batches, |b: BatchMetrics| sync_time_of(b))
            &&& is_total(m.batch_us, batches, |b: BatchMetrics| b.batch_us as nat)
        }),
        ({
            let m = metrics_after(batches);
            &&& is_largest(m.group_wait_max_us, batches, |b: BatchMetrics| b.group_wait_us as nat)
            &&& is_largest(
                m.queued_wait_max_us,
                batches,
                |b: BatchMetrics| b.queued_wait_max_us as nat,
            )
            &&& is_largest(m.write_max_us, batches, |b: BatchMetrics| b.write_us as nat)
            &&& is_largest(m.sync_max_us, batches, |b: BatchMetrics| sync_time_of(b))
            &&& is_largest(m.batch_max_us, batches, |b: BatchMetrics| b.batch_us as nat)
            &&& is_largest(m.batch_size_max, batches, |b: BatchMetrics| b.size as nat)
            &&& is_largest(m.batch_bytes_max, batches, |b: BatchMetrics| b.bytes as nat)
        }),
        batches.len() > 0 ==> {
            let m = metrics_after(batches);
            let last = batches.last();
            &&& m.last_batch_size == last.size
            &&& m.last_batch_bytes == last.bytes
            &&& m.last_callback_count == last.callbacks
            &&& m.last_sync_us == sync_time_of(last)
            &&& m.last_queued_wait_max_us == last.queued_wait_max_us
        },
    decreases batches.len(),
{
    if batches.len() > 0 {
        let earlier = batches.drop_last();
        law_metrics_sum_up_the_batches(earlier);
        let (a, b) = (metrics_after(earlier), metrics_after(batches));
        lemma_total(a.batch_count, b.batch_count, batches, |b: BatchMetrics| 1);
        lemma_total(
            a.sync_batch_count,
            b.sync_batch_count,
            batches,
            |b: BatchMetrics| if b.sync_us is Some { 1 } else { 0 },
        );
        lemma_total(
            a.write_request_count,
            b.write_request_count,
            batches,
            |b: BatchMetrics| b.size as nat,
        );
        lemma_total(a.write_bytes, b.write_bytes, batches, |b: BatchMetrics| b.bytes as nat);
        lemma_total(
            a.callback_count,
            b.callback_count,
            batches,
            |b: BatchMetrics| b.callbacks as nat,
        );
        lemma_total(
            a.group_wait_count,
            b.group_wait_count,
            batches,
            |b: BatchMetrics| if b.group_wait_us > 0 { 1 } else { 0 },
        );
        lemma_total(
            a.group_wait_us,
            b.group_wait_us,
            batches,
            |b: BatchMetrics| b.group_wait_us as nat,
        );
        lemma_total(
            a.queued_wait_us,
            b.queued_wait_us,
            batches,
            |b: BatchMetrics| b.queued_wait_us as nat,
        );
        lemma_total(a.write_us, b.write_us, batches, |b: BatchMetrics| b.write_us as nat);
        lemma_total(a.sync_us, b.sync_us, batches, |b: BatchMetrics| sync_time_of(b));
        lemma_total(a.batch_us, b.batch_us, batches, |b: BatchMetrics| b.batch_us as nat);
        lemma_largest(
            a.group_wait_max_us,
            b.group_wait_max_us,
            batches,
            |b: BatchMetrics| b.group_wait_us as nat,
        );
        lemma_largest(
            a.queued_wait_max_us,
            b.queued_wait_max_us,
            batches,
            |b: BatchMetrics| b.queued_wait_max_us as nat,
        );
        lemma_largest(a.write_max_us, b.write_max_us, batches, |b: BatchMetrics| b.write_us as nat);
        lemma_largest(a.sync_max_us, b.sync_max_us, batches, |b: BatchMetrics| sync_time_of(b));
        lemma_largest(a.batch_max_us, b.batch_max_us, batches, |b: BatchMetrics| b.batch_us as nat);
        lemma_largest(a.batch_size_max, b.batch_size_max, batches, |b: BatchMetrics| b.size as nat);
        lemma_largest(
            a.batch_bytes_max,
            b.batch_bytes_max,
            batches,
            |b: BatchMetrics| b.bytes as nat,
        );
    }
}

/// The rendering of a chunk's statistics shows the chunk, how many records it
/// has, where it starts and ends, its size, and its checkpoint, in this order.
pub proof fn law_rendering_shows_the_statistics<Chkp>(
    stat: ChunkStat<Chkp>,
    log_state: Seq<char>,
) -> (shown: (Seq<char>, Seq<char>, Seq<char>, Seq<char>))
    ensures
        crate::num::shows(shown.0, stat.records_count as nat),
        crate::num::shows_grouped(shown.1, stat.global_start as nat),
        crate::num::shows_grouped(shown.2, stat.global_end as nat),
        crate::num::shows_grouped(shown.3, stat.size as nat),
        stat.text(log_state) == "ChunkStat("@ + stat.chunk_id.text() + "){records: "@ + shown.0
            + ", ["@ + shown.1 + ", "@ + shown.2 + "), size: "@ + shown.3 + ", log_state: "@
            + log_state + "}"@,
{
    crate::num::law_decimal_text_denotes_the_number(stat.records_count as nat);
    crate::num::law_padded9_text_denotes_the_number(stat.global_start);
    crate::num::law_padded9_text_denotes_the_number(stat.global_end);
    crate::num::law_padded9_text_denotes_the_number(stat.size);
    (
        crate::num::decimal(stat.records_count as nat),
        crate::num::padded9_u64(stat.global_start),
        crate::num::padded9_u64(stat.global_end),
        crate::num::padded9_u64(stat.size),
    )
}

} // verus!
