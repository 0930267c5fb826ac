//! Measurements of one write batch.

use crate::types::WalTypes;
use crate::wal::queued_write::QueuedWrite;
use vstd::prelude::*;

verus! {

/// When the phases of a batch began and how long they took, in nanoseconds.
#[derive(Debug, Clone, Copy, PartialEq, Eq)]
pub struct BatchTiming {
    /// When the worker began to wait for more write requests.
    pub collect_started: u64,
    /// How long it waited.
    pub group_wait: u64,
    /// When it began to process the batch.
    pub batch_started: u64,
    /// How long the file write took.
    pub write_time: u64,
    /// When the filesystem sync began.
    pub sync_started: u64,
    /// How long the filesystem sync took, if there was one.
    pub sync_time: Option<u64>,
}

/// Measurements of one write batch. Durations are in microseconds.
#[derive(Debug, Clone, Copy, PartialEq, Eq)]
pub struct BatchMetrics {
    /// Number of write requests.
    pub size: u64,
    /// Number of bytes written.
    pub bytes: u64,
    /// Number of callbacks to be sent.
    pub callbacks: u64,
    /// Intentional wait for more write requests.
    pub group_wait_us: u64,
    /// Queue wait of all requests together.
    pub queued_wait_us: u64,
    /// Longest queue wait of a request.
    pub queued_wait_max_us: u64,
    /// Time of the file write.
    pub write_us: u64,
    /// Time of the filesystem sync, if there was one.
    pub sync_us: Option<u64>,
    /// Time of the whole batch.
    pub batch_us: u64,
}

/// `n`, or the largest `u64` if `n` exceeds it.
pub open spec fn saturated(n: nat) -> u64 {
    if n <= u64::MAX {
        n as u64
    } else {
        u64::MAX
    }
}

/// The time from `start` to `now`; zero if the clock went backwards.
pub open spec fn elapsed(start: u64, now: u64) -> u64 {
    if now >= start {
        (now - start) as u64
    } else {
        0
    }
}

/// How long a request had been queued when its batch started, in
/// microseconds.
pub open spec fn queued_wait<W: WalTypes>(w: QueuedWrite<W>, batch_started: u64) -> u64 {
    elapsed(w.queued_at, batch_started) / 1000
}

/// The queue waits of all requests together.
pub open spec fn queued_wait_sum<W: WalTypes>(
    writes: Seq<QueuedWrite<W>>,
    batch_started: u64,
) -> nat
    decreases writes.len(),
{
    if writes.len() == 0 {
        0
    } else {
        queued_wait_sum(writes.drop_last(), batch_started) + queued_wait(
            writes.last(),
            batch_started,
        ) as nat
    }
}

/// The longest queue wait; zero for an empty batch.
pub open spec fn queued_wait_max<W: WalTypes>(
    writes: Seq<QueuedWrite<W>>,
    batch_started: u64,
) -> u64
    decreases writes.len(),
{
    if writes.len() == 0 {
        0
    } else {
        let before = queued_wait_max(writes.drop_last(), batch_started);
        let last = queued_wait(writes.last(), batch_started);
        if last > before {
            last
        } else {
            before
        }
    }
}

/// The number of bytes of all requests together.
pub open spec fn data_size<W: WalTypes>(writes: Seq<QueuedWrite<W>>) -> nat
    decreases writes.len(),
{
    if writes.len() == 0 {
        0
    } else {
        data_size(writes.drop_last()) + writes.last().write.data@.len()
    }
}

/// The number of requests that have a callback.
pub open spec fn callback_count<W: WalTypes>(writes: Seq<QueuedWrite<W>>) -> nat
    decreases writes.len(),
{
    if writes.len() == 0 {
        0
    } else {
        callback_count(writes.drop_last()) + if writes.last().write.callback is Some {
            1nat
        } else {
            0nat
        }
    }
}

/// The measurements of a batch that ends at `now`.
pub open spec fn batch_metrics<W: WalTypes>(
    writes: Seq<QueuedWrite<W>>,
    timing: BatchTiming,
    now: u64,
) -> BatchMetrics {
    BatchMetrics {
        size: writes.len() as u64,
        bytes: saturated(data_size(writes)),
        callbacks: callback_count(writes) as u64,
        group_wait_us: timing.group_wait / 1000,
        queued_wait_us: saturated(queued_wait_sum(writes, timing.batch_started)),
        queued_wait_max_us: queued_wait_max(writes, timing.batch_started),
        write_us: timing.write_time / 1000,
        sync_us: match timing.sync_time {
            Some(t) => Some(t / 1000),
            None => None,
        },
        batch_us: elapsed(timing.batch_started, now) / 1000,
    }
}

impl BatchTiming {
    /// Creates the timing of a batch whose first request arrives at `now`.
    pub fn new(now: u64) -> (r: Self)
        ensures
            r == (BatchTiming {
                collect_started: now,
                group_wait: 0,
                batch_started: now,
                write_time: 0,
                sync_started: now,
                sync_time: None,
            }),
    {
        BatchTiming {
            collect_started: now,
            group_wait: 0,
            batch_started: now,
            write_time: 0,
            sync_started: now,
            sync_time: None,
        }
    }
}

/// Returns the time from `start` to `now`.
pub fn elapsed_since(start: u64, now: u64) -> (r: u64)
    ensures
        r == elapsed(start, now),
{
    now.saturating_sub(start)
}

impl BatchMetrics {
    /// Measures a batch that ends at `now`.
    pub fn measure<W: WalTypes>(
        writes: &Vec<QueuedWrite<W>>,
        timing: BatchTiming,
        now: u64,
    ) -> (r: Self)
        ensures
            r == batch_metrics(writes@, timing, now),
    {
        let mut bytes: u64 = 0;
        let mut callbacks: u64 = 0;
        let mut queued_wait_us: u64 = 0;
        let mut queued_wait_max_us: u64 = 0;
        let mut i: usize = 0;
        while i < writes.len()
            invariant
                i <= writes@.len(),
                bytes == saturated(data_size(writes@.take(i as int))),
                callbacks == callback_count(writes@.take(i as int)),
                callbacks <= i,
                queued_wait_us == saturated(
                    queued_wait_sum(writes@.take(i as int), timing.batch_started),
                ),
                queued_wait_max_us == queued_wait_max(
                    writes@.take(i as int),
                    timing.batch_started,
                ),
            decreases writes.len() - i,
        {
            assert(writes@.take(i + 1).drop_last() =~= writes@.take(i as int));
            let w = &writes[i];
            bytes = bytes.saturating_add(w.write.data.len() as u64);
            if w.write.callback.is_some() {
                callbacks = callbacks + 1;
            }
            let wait: u64 = elapsed_since(w.queued_at, timing.batch_started) / 1000;
            queued_wait_us = queued_wait_us.saturating_add(wait);
            if wait > queued_wait_max_us {
                queued_wait_max_us = wait;
            }
            i = i + 1;
        }
        assert(writes@.take(i as int) =~= writes@);
        BatchMetrics {
            size: writes.len() as u64,
            bytes,
            callbacks,
            group_wait_us: timing.group_wait / 1000,
            queued_wait_us,
            queued_wait_max_us,
            write_us: timing.write_time / 1000,
            sync_us: match timing.sync_time {
                Some(t) => Some(t / 1000),
                None => None,
            },
            batch_us: elapsed_since(timing.batch_started, now) / 1000,
        }
    }
}

/// The time that has passed is what has to be added to the start; a clock that
/// goes backwards has not moved.
pub proof fn law_elapsed_time_adds_up(start: u64, now: u64)
    ensures
        start <= now ==> start + elapsed(start, now) == now,
        now <= start ==> elapsed(start, now) == 0,
{
}

/// What is measured of a batch grows with each write request: by one request,
/// by its bytes, by one if it has a callback, and by its queue wait, of which
/// the longest is kept. The queue wait is the time from when the request was
/// queued to when the batch started, in whole microseconds. Of an empty batch
/// nothing is measured.
pub proof fn law_measurements_add_up<W: WalTypes>(
    writes: Seq<QueuedWrite<W>>,
    w: QueuedWrite<W>,
    started: u64,
)
    ensures
        data_size(Seq::<QueuedWrite<W>>::empty()) == 0,
        callback_count(Seq::<QueuedWrite<W>>::empty()) == 0,
        queued_wait_sum(Seq::<QueuedWrite<W>>::empty(), started) == 0,
        queued_wait_max(Seq::<QueuedWrite<W>>::empty(), started) == 0,
        data_size(writes.push(w)) == data_size(writes) + w.write.data@.len(),
        callback_count(writes.push(w)) == callback_count(writes) + match w.write.callback {
            Some(_) => 1nat,
            None => 0nat,
        },
        ({
            let wait = queued_wait(w, started) as nat;
            let longest = queued_wait_max(writes.push(w), started);
            &&& queued_wait_sum(writes.push(w), started) == queued_wait_sum(writes, started) + wait
            &&& w.queued_at <= started ==> wait * 1000 <= started - w.queued_at < wait * 1000
                + 1000
            &&& w.queued_at > started ==> wait == 0
            &&& longest >= wait
            &&& longest >= queued_wait_max(writes, started)
            &&& longest == wait || longest == queued_wait_max(writes, started)
        }),
{
    assert(writes.push(w).drop_last() =~= writes);
}

} // verus!
