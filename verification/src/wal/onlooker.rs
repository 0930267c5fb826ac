//! What can be told of the flush worker from outside.
//!
//! An onlooker does not know the worker's state. It sees the requests that
//! arrive and the outcomes of the operations that the worker asks for, and
//! from them alone it can tell to which file the worker writes, how long it
//! waits for more requests, which offset it reports as synced, what it tells
//! the callbacks and what it measures.

use crate::errors::Error;
use crate::types::WalTypes;
use crate::wal::batch_metrics::BatchMetrics;
use crate::wal::batch_metrics::BatchTiming;
use crate::wal::file_entry::FileEntry;
use crate::wal::flush_request::RollRequest;
use crate::wal::flush_request::SeqRequest;
use crate::wal::flush_request::WorkerRequest;
use crate::wal::flush_request::WriteRequest;
use crate::wal::queued_write::QueuedWrite;
use crate::wal::vectored_write::WriteCursor;
use crate::wal::worker_event::Event;
use crate::wal::worker_model::StepView;
use crate::wal::worker_model::WorkerView;
use crate::wal::worker_step::Action;
use crate::wal::worker_step::Effect;
use crate::wal::worker_step::Stage;
use std::sync::Arc;
use vstd::prelude::*;

verus! {

/// What an onlooker has noted down.
pub struct Onlooker<W: WalTypes> {
    /// Every chunk file, in the order they were created.
    pub files: Seq<Arc<W::File>>,
    /// Every chunk whose leading bytes have been written, in the same order.
    pub chunks: Seq<FileEntry<W>>,
    /// The latest request for a new chunk.
    pub roll: Option<RollRequest<W>>,
    /// The write requests that arrived since the worker last waited for the
    /// first request of a round.
    pub batch: Seq<QueuedWrite<W>>,
    /// When the first request of the round arrived.
    pub first_arrival: u64,
    /// When the batch was complete: the latest arrival, or the time at which
    /// none came any more.
    pub collected: u64,
    /// When the batch was written: the latest outcome of a write, or the time
    /// at which the batch was complete.
    pub written: u64,
}

impl<W: WalTypes> Onlooker<W> {
    /// The notes after a request has been added.
    pub open spec fn with_request(self, request: SeqRequest<W>) -> Self {
        match request.req {
            WorkerRequest::Write(write) => Onlooker {
                batch: self.batch.push(QueuedWrite { queued_at: request.queued_at, write }),
                ..self
            },
            WorkerRequest::Roll(roll) => Onlooker { roll: Some(roll), ..self },
            _ => self,
        }
    }

    /// The notes after an event.
    pub open spec fn after(self, event: Event<W>) -> Self {
        match event {
            Event::Received { request, now } => Onlooker {
                batch: Seq::empty(),
                first_arrival: now,
                collected: now,
                written: now,
                ..self
            }.with_request(request),
            Event::ReceivedMore { request, now } => Onlooker {
                collected: now,
                written: now,
                ..self
            }.with_request(request),
            Event::ReceivedNone { now } => Onlooker { collected: now, written: now, ..self },
            Event::Wrote { now, .. } => Onlooker { written: now, ..self },
            Event::Created { result: Ok(file) } => Onlooker { files: self.files.push(file), ..self },
            Event::LeadingWritten { result: Ok(_), .. } => Onlooker {
                chunks: self.chunks.push(
                    FileEntry {
                        starting_offset: self.roll->0.starting_offset,
                        f: self.files.last(),
                        on_persisted: self.roll->0.on_persisted,
                        sync_id: 0,
                    },
                ),
                ..self
            },
            _ => self,
        }
    }
}

/// The two entries are of the same chunk.
pub open spec fn same_chunk<W: WalTypes>(a: FileEntry<W>, b: FileEntry<W>) -> bool {
    &&& a.starting_offset == b.starting_offset
    &&& a.f == b.f
    &&& a.on_persisted == b.on_persisted
}

/// When an event happens.
pub open spec fn time_of<W: WalTypes>(event: Event<W>) -> u64 {
    match event {
        Event::Received { now, .. } => now,
        Event::ReceivedMore { now, .. } => now,
        Event::ReceivedNone { now } => now,
        Event::Wrote { now, .. } => now,
        Event::Synced { now, .. } => now,
        _ => 0,
    }
}

/// The event is a failure for which `error` is the reason.
pub open spec fn fails_with<W: WalTypes>(event: Event<W>, error: Error) -> bool {
    match event {
        Event::Wrote { result: Ok(n), .. } => {
            &&& n == 0
            &&& error.kind == std::io::ErrorKind::WriteZero
            &&& error.message@ == "failed to write whole buffer"@
        },
        Event::Wrote { result: Err(e), .. } => {
            &&& e == error
            &&& e.kind != std::io::ErrorKind::Interrupted
        },
        Event::Synced { result: Err(e), .. } => e == error,
        Event::Removed { result: Err(e) } => e == error,
        Event::Created { result: Err(e) } => e == error,
        Event::DirSynced { result: Err(e) } => e == error,
        Event::LeadingWritten { result: Err(e), .. } => e == error,
        _ => false,
    }
}

/// The measurements are those of the batch that the onlooker has noted down,
/// if `event` ends it. Durations are in whole microseconds.
pub open spec fn measures<W: WalTypes>(
    metrics: BatchMetrics,
    o: Onlooker<W>,
    event: Event<W>,
) -> bool {
    let bytes = crate::wal::batch_metrics::data_size(o.batch);
    let waits = crate::wal::batch_metrics::queued_wait_sum(o.batch, o.collected);
    let now = time_of(event);
    &&& metrics.size == o.batch.len() as u64
    &&& metrics.bytes == if bytes <= u64::MAX {
        bytes
    } else {
        u64::MAX as nat
    }
    &&& metrics.callbacks == crate::wal::batch_metrics::callback_count(o.batch) as u64
    &&& metrics.group_wait_us == crate::wal::batch_metrics::elapsed(o.first_arrival, o.collected)
        / 1000
    &&& metrics.queued_wait_us == if waits <= u64::MAX {
        waits
    } else {
        u64::MAX as nat
    }
    &&& metrics.queued_wait_max_us == crate::wal::batch_metrics::queued_wait_max(
        o.batch,
        o.collected,
    )
    &&& metrics.write_us == crate::wal::batch_metrics::elapsed(o.collected, o.written) / 1000
    &&& metrics.sync_us == if event is Synced {
        Some((crate::wal::batch_metrics::elapsed(o.written, now) / 1000) as u64)
    } else {
        None
    }
    &&& metrics.batch_us == crate::wal::batch_metrics::elapsed(o.collected, now) / 1000
}

/// An effect is what the onlooker expects after `event`. `creating` tells
/// whether the worker goes on to create a chunk file.
pub open spec fn effect_fits<W: WalTypes>(
    effect: Effect<W>,
    o: Onlooker<W>,
    event: Event<W>,
    creating: bool,
) -> bool {
    match effect {
        // The newest chunk is reported, to its own callback, up to the end of
        // the last write request, or to where the new chunk starts.
        Effect::Persisted { call } => {
            &&& event matches Event::Synced { result: Ok(_), .. }
            &&& call.persisted.file == o.chunks.last().f
            &&& call.persisted.starting_offset == o.chunks.last().starting_offset
            &&& call.callback == o.chunks.last().on_persisted.callback
            &&& call.state == o.chunks.last().on_persisted.prev_chunk_state
            &&& call.persisted.synced_offset == if creating {
                o.roll->0.starting_offset
            } else {
                o.batch.last().write.upto_offset
            }
        },
        // Callbacks are told of success, unless the sync failed.
        Effect::Notify { result, .. } => match event {
            Event::Synced { result: Err(e), .. } => result == Err::<(), Error>(e),
            _ => result is Ok,
        },
        // The file that was created last is published where it was asked.
        Effect::Publish { slot, file } => {
            &&& event matches Event::LeadingWritten { result: Ok(_), .. }
            &&& slot == o.roll->0.file_slot
            &&& file == o.files.last()
        },
        Effect::RecordBatch { metrics } => measures(metrics, o, event),
        Effect::FailSlot { error, .. } => fails_with(event, error),
        Effect::Stopped { failure: Some(error) } => fails_with(event, error),
        Effect::Stopped { failure: None } => event is Closed,
        _ => true,
    }
}

/// The request that the event brings is a write.
pub open spec fn brings_write<W: WalTypes>(event: Event<W>) -> bool {
    match event {
        Event::Received { request, .. } => request.req is Write,
        Event::ReceivedMore { request, .. } => request.req is Write,
        _ => false,
    }
}

/// The time at which a batch is no longer collected: `wait` after the first
/// arrival, as far as the clock reaches.
pub open spec fn due_time(first_arrival: u64, wait: u64) -> int {
    if first_arrival + wait <= u64::MAX {
        first_arrival + wait
    } else {
        u64::MAX as int
    }
}

/// An action is what the onlooker expects after `event`, of a worker that
/// waits for `wait` and takes `max_items` write requests into a batch.
pub open spec fn action_fits<W: WalTypes>(
    action: Action<W>,
    o: Onlooker<W>,
    event: Event<W>,
    wait: u64,
    max_items: usize,
) -> bool {
    match action {
        // Data goes to the newest chunk.
        Action::Write { file } => file == o.chunks.last().f,
        Action::WriteLeading { file } => file == o.files.last(),
        Action::Create { path } => o.roll is Some && path == o.roll->0.path,
        // The wait ends when it is due, counted from the first arrival.
        Action::ReceiveTimeout { remaining } => {
            &&& brings_write(event)
            &&& 0 < o.batch.len() < max_items
            &&& 0 < remaining
            &&& time_of(event) + remaining == due_time(o.first_arrival, wait)
        },
        _ => true,
    }
}

/// A write request that arrives is waited with for more, unless the batch is
/// full or it is time.
pub open spec fn collects<W: WalTypes>(
    action: Action<W>,
    o: Onlooker<W>,
    event: Event<W>,
    wait: u64,
    max_items: usize,
) -> bool {
    brings_write(event) ==> {
        ||| action is ReceiveTimeout
        ||| o.batch.len() >= max_items
        ||| time_of(event) >= due_time(o.first_arrival, wait)
    }
}

/// The position, among the chunks, of the file whose sync the worker in state
/// `v` waits for.
pub open spec fn synced_chunk<W: WalTypes>(v: WorkerView<W>, o: Onlooker<W>) -> int {
    if v.stage->last {
        o.chunks.len() - 1
    } else {
        o.chunks.len() - 1 - v.files.len()
    }
}

/// A step is what the onlooker expects after `event`.
pub open spec fn fits<W: WalTypes>(step: StepView<W>, o: Onlooker<W>, event: Event<W>) -> bool {
    let (wait, max_items) = (step.state.wait, step.state.max_items);
    &&& forall|i: int|
        0 <= i < step.effects.len() ==> effect_fits(
            #[trigger] step.effects[i],
            o,
            event,
            step.action is Create,
        )
    &&& action_fits(step.action, o, event, wait, max_items)
    &&& collects(step.action, o, event, wait, max_items)
    // A batch is synced only if a request of it asks for that.
    &&& step.action is Sync ==> step.state.roll is Some || exists|i: int|
        0 <= i < o.batch.len() && (#[trigger] o.batch[i]).write.sync
    &&& step.action matches Action::Sync { file } ==> {
        &&& 0 <= synced_chunk(step.state, o) < o.chunks.len()
        &&& file == o.chunks[synced_chunk(step.state, o)].f
    }
    // The leading bytes to write are those that were asked for.
    &&& step.action is WriteLeading ==> step.state.roll == o.roll
}

/// The worker's files are the newest chunks.
spec fn knows<W: WalTypes>(v: WorkerView<W>, o: Onlooker<W>) -> bool {
    &&& 0 < v.files.len() <= o.chunks.len() <= o.files.len()
    &&& forall|k: int|
        0 <= k < v.files.len() ==> same_chunk(
            #[trigger] v.files[k],
            o.chunks[o.chunks.len() - v.files.len() + k],
        )
    &&& forall|i: int| 0 <= i < o.chunks.len() ==> (#[trigger] o.chunks[i]).f == o.files[i]
    &&& v.roll is Some ==> v.roll == o.roll
    &&& v.pending matches Some(request) ==> request.req matches WorkerRequest::Roll(roll)
        ==> o.roll == Some(roll)
}

/// No file is being created.
spec fn settled<W: WalTypes>(v: WorkerView<W>, o: Onlooker<W>) -> bool {
    &&& knows(v, o)
    &&& v.new_file is None
    &&& o.files.len() == o.chunks.len()
}

/// The batch is the one that was noted down, and its first arrival too.
spec fn collected<W: WalTypes>(v: WorkerView<W>, o: Onlooker<W>) -> bool {
    &&& settled(v, o)
    &&& v.roll is None
    &&& v.pending is Some ==> !(v.pending->0.req is Write)
    &&& v.writes == o.batch
    &&& v.writes.len() > 0
    &&& v.timing.collect_started == o.first_arrival
    &&& v.timing.sync_time is None
}

/// Its writing has begun when it was complete.
spec fn begun<W: WalTypes>(v: WorkerView<W>, o: Onlooker<W>) -> bool {
    &&& collected(v, o)
    &&& v.timing.batch_started == o.collected
    &&& v.timing.group_wait == crate::wal::batch_metrics::elapsed(o.first_arrival, o.collected)
}

/// It has been written.
spec fn finished<W: WalTypes>(v: WorkerView<W>, o: Onlooker<W>) -> bool {
    &&& begun(v, o)
    &&& v.timing.write_time == crate::wal::batch_metrics::elapsed(o.collected, o.written)
    &&& v.timing.sync_started == o.written
}

/// The worker's state is the one that an onlooker supposes.
pub closed spec fn agrees<W: WalTypes>(v: WorkerView<W>, o: Onlooker<W>) -> bool {
    match v.stage {
        Stage::Receive | Stage::Remove => settled(v, o),
        Stage::Collect => {
            &&& collected(v, o)
            &&& v.deadline == due_time(o.first_arrival, v.wait)
        },
        Stage::Write => begun(v, o),
        Stage::Sync { last, roll } => {
            &&& settled(v, o)
            &&& 0 <= synced_chunk(v, o)
            &&& if roll {
                v.sync_offset == o.roll->0.starting_offset
            } else {
                &&& finished(v, o)
                &&& v.sync_offset == o.batch.last().write.upto_offset
                &&& exists|i: int| 0 <= i < o.batch.len() && (#[trigger] o.batch[i]).write.sync
            }
        },
        Stage::Create => settled(v, o),
        Stage::SyncDir | Stage::WriteLeading => {
            &&& knows(v, o)
            &&& o.files.len() == o.chunks.len() + 1
            &&& v.new_file == Some(o.files.last())
        },
        Stage::Drain | Stage::Stopped => true,
    }
}

/// A worker that waits for its first request is the one that an onlooker
/// supposes who knows its files.
pub proof fn law_start_agrees<W: WalTypes>(v: WorkerView<W>, o: Onlooker<W>)
    requires
        v.well_formed(),
        v.stage is Receive,
        v.new_file is None,
        v.files.len() <= o.chunks.len(),
        o.chunks.skip(o.chunks.len() - v.files.len()) == v.files,
        o.files == o.chunks.map_values(|chunk: FileEntry<W>| chunk.f),
    ensures
        agrees(v, o),
{
    assert forall|k: int| 0 <= k < v.files.len() implies same_chunk(
        #[trigger] v.files[k],
        o.chunks[o.chunks.len() - v.files.len() + k],
    ) by {
        assert(o.chunks.skip(o.chunks.len() - v.files.len())[k] == v.files[k]);
    }
}

spec fn all_fit<W: WalTypes>(effects: Seq<Effect<W>>, o: Onlooker<W>, event: Event<W>) -> bool {
    forall|i: int|
        0 <= i < effects.len() ==> effect_fits(#[trigger] effects[i], o, event, false)
}

/// What a transition leads to.
spec fn expected<W: WalTypes>(
    v: WorkerView<W>,
    step: StepView<W>,
    o: Onlooker<W>,
    event: Event<W>,
) -> bool {
    &&& agrees(step.state, o)
    &&& step.state.wait == v.wait
    &&& step.state.max_items == v.max_items
    &&& fits(step, o, event)
}

/// A complete batch is not waited with.
spec fn needs_no_wait<W: WalTypes>(v: WorkerView<W>, o: Onlooker<W>, event: Event<W>) -> bool {
    brings_write(event) ==> o.batch.len() >= v.max_items || time_of(event) >= due_time(
        o.first_arrival,
        v.wait,
    )
}

proof fn seen_begin_sync<W: WalTypes>(
    v: WorkerView<W>,
    roll: bool,
    effects: Seq<Effect<W>>,
    o: Onlooker<W>,
    event: Event<W>,
)
    requires
        settled(v, o),
        all_fit(effects, o, event),
        needs_no_wait(v, o, event),
        if roll {
            &&& v.roll is Some
            &&& v.sync_offset == o.roll->0.starting_offset
        } else {
            &&& finished(v, o)
            &&& v.sync_offset == o.batch.last().write.upto_offset
            &&& exists|i: int| 0 <= i < o.batch.len() && (#[trigger] o.batch[i]).write.sync
        },
    ensures
        expected(v, v.begin_sync(roll, effects), o, event),
{
    let step = v.begin_sync(roll, effects);
    assert(same_chunk(v.files[0], o.chunks[o.chunks.len() - v.files.len()]));
    assert forall|k: int| 0 <= k < step.state.files.len() implies same_chunk(
        #[trigger] step.state.files[k],
        o.chunks[o.chunks.len() - step.state.files.len() + k],
    ) by {
        if v.files.len() == 1 {
            assert(same_chunk(v.files[k], o.chunks[o.chunks.len() - v.files.len() + k]));
        } else {
            assert(same_chunk(v.files[k + 1], o.chunks[o.chunks.len() - v.files.len() + k + 1]));
        }
    }
}

proof fn seen_control<W: WalTypes>(
    v: WorkerView<W>,
    req: WorkerRequest<W>,
    effects: Seq<Effect<W>>,
    o: Onlooker<W>,
    event: Event<W>,
)
    requires
        settled(v, o),
        v.roll is None,
        all_fit(effects, o, event),
        needs_no_wait(v, o, event),
        !(req is Write),
        req matches WorkerRequest::Roll(roll) ==> o.roll == Some(roll),
    ensures
        expected(v, v.control(req, effects), o, event),
{
    match req {
        WorkerRequest::Roll(roll) => {
            let state = WorkerView {
                sync_offset: roll.starting_offset,
                roll: Some(roll),
                ..v
            };
            seen_begin_sync(state, true, effects, o, event);
        },
        _ => {},
    }
}

proof fn seen_notifications<W: WalTypes>(
    writes: Seq<QueuedWrite<W>>,
    result: Result<(), Error>,
    o: Onlooker<W>,
    event: Event<W>,
)
    requires
        match event {
            Event::Synced { result: Err(e), .. } => result == Err::<(), Error>(e),
            _ => result is Ok,
        },
    ensures
        all_fit(crate::wal::worker_model::notifications(writes, result), o, event),
    decreases writes.len(),
{
    if writes.len() > 0 {
        seen_notifications(writes.drop_last(), result, o, event);
    }
}

proof fn seen_finish_batch<W: WalTypes>(
    v: WorkerView<W>,
    result: Result<(), Error>,
    effects: Seq<Effect<W>>,
    now: u64,
    o: Onlooker<W>,
    event: Event<W>,
)
    requires
        finished(WorkerView { timing: BatchTiming { sync_time: None, ..v.timing }, ..v }, o),
        now == time_of(event),
        all_fit(effects, o, event),
        needs_no_wait(v, o, event),
        v.timing.sync_time == if event is Synced {
            Some(crate::wal::batch_metrics::elapsed(o.written, now))
        } else {
            None
        },
        match event {
            Event::Synced { result: Err(e), .. } => result == Err::<(), Error>(e),
            _ => result is Ok,
        },
    ensures
        expected(v, v.finish_batch(result, effects, now), o, event),
{
    let metrics = crate::wal::batch_metrics::batch_metrics(v.writes, v.timing, now);
    let notifications = crate::wal::worker_model::notifications(v.writes, result);
    let told = effects.push(Effect::RecordBatch { metrics }) + notifications;
    seen_notifications(v.writes, result, o, event);
    assert(measures(metrics, o, event));
    assert forall|i: int| 0 <= i < told.len() implies effect_fits(
        #[trigger] told[i],
        o,
        event,
        false,
    ) by {
        if i < effects.len() {
            assert(told[i] == effects[i]);
        } else if i > effects.len() {
            assert(told[i] == notifications[i - effects.len() - 1]);
        }
    }
    if let Some(request) = v.pending {
        let seq = if request.seq > v.max_seq {
            request.seq
        } else {
            v.max_seq
        };
        seen_control(WorkerView { seq, ..v.idle() }, request.req, told, o, event);
    }
}

proof fn seen_written<W: WalTypes>(
    v: WorkerView<W>,
    now: u64,
    o: Onlooker<W>,
    event: Event<W>,
)
    requires
        begun(v, o),
        now == o.written,
        now == time_of(event),
        !(event is Synced),
        needs_no_wait(v, o, event),
    ensures
        expected(v, v.written(now), o, event),
{
    let released = crate::wal::worker_model::releases(v.writes);
    let write_time = crate::wal::batch_metrics::elapsed(v.timing.batch_started, now);
    let timing = BatchTiming { write_time, sync_started: now, ..v.timing };
    let after = WorkerView { timing, ..v };
    assert(all_fit(released, o, event));
    if crate::wal::worker_model::needs_sync(v.writes) {
        let i = choose|i: int| 0 <= i < v.writes.len() && (#[trigger] v.writes[i]).write.sync;
        assert(o.batch[i].write.sync);
        let state = WorkerView { sync_offset: v.writes.last().write.upto_offset, ..after };
        seen_begin_sync(state, false, released, o, event);
    } else {
        seen_finish_batch(after, Ok(()), released, now, o, event);
    }
}

proof fn seen_start_write<W: WalTypes>(
    v: WorkerView<W>,
    now: u64,
    o: Onlooker<W>,
    event: Event<W>,
)
    requires
        collected(v, o),
        now == o.collected,
        now == o.written,
        now == time_of(event),
        !(event is Synced),
        needs_no_wait(v, o, event),
    ensures
        expected(v, v.start_write(now), o, event),
{
    let group_wait = crate::wal::batch_metrics::elapsed(v.timing.collect_started, now);
    let timing = BatchTiming { group_wait, batch_started: now, ..v.timing };
    let first = crate::wal::vectored_write::first_with_data(v.writes, 0);
    let cursor = WriteCursor { index: first as usize, offset: 0 };
    let after = WorkerView { timing, cursor, ..v };
    if first == v.writes.len() {
        seen_written(after, now, o, event);
    } else {
        assert(same_chunk(v.files[v.files.len() - 1], o.chunks[o.chunks.len() - 1]));
    }
}

proof fn seen_collect_more<W: WalTypes>(
    v: WorkerView<W>,
    now: u64,
    o: Onlooker<W>,
    event: Event<W>,
)
    requires
        collected(v, o),
        v.deadline == due_time(o.first_arrival, v.wait),
        now == o.collected,
        now == o.written,
        now == time_of(event),
        !(event is Synced),
        v.pending is None <==> brings_write(event),
    ensures
        expected(v, v.collect_more(now), o, event),
{
    if v.pending is Some || v.writes.len() >= v.max_items || v.deadline <= now {
        seen_start_write(v, now, o, event);
    }
}

proof fn seen_fail<W: WalTypes>(
    v: WorkerView<W>,
    error: Error,
    o: Onlooker<W>,
    event: Event<W>,
)
    requires
        fails_with(event, error),
    ensures
        expected(v, v.fail(error, Seq::empty()), o, event),
{
}

proof fn seen_received<W: WalTypes>(
    v: WorkerView<W>,
    request: SeqRequest<W>,
    now: u64,
    o: Onlooker<W>,
)
    requires
        v.well_formed(),
        v.stage is Receive,
        agrees(v, o),
    ensures
        ({
            let event = Event::Received { request, now };
            expected(v, v.received(request, now), o.after(event), event)
        }),
{
    let event = Event::Received { request, now };
    let after = o.after(event);
    if request.req is Write {
        assert(v.writes =~= Seq::empty());
        seen_collect_more(v.begun(request, now), now, after, event);
    } else {
        let state = WorkerView { seq: request.seq, ..v };
        seen_control(state, request.req, Seq::empty(), after, event);
    }
}

proof fn seen_received_more<W: WalTypes>(
    v: WorkerView<W>,
    request: SeqRequest<W>,
    now: u64,
    o: Onlooker<W>,
)
    requires
        v.well_formed(),
        v.stage is Collect,
        agrees(v, o),
    ensures
        ({
            let event = Event::ReceivedMore { request, now };
            expected(v, v.received_more(request, now), o.after(event), event)
        }),
{
    let event = Event::ReceivedMore { request, now };
    seen_collect_more(v.pushed(request), now, o.after(event), event);
}

proof fn seen_wrote<W: WalTypes>(
    v: WorkerView<W>,
    result: Result<usize, Error>,
    now: u64,
    step: StepView<W>,
    o: Onlooker<W>,
)
    requires
        v.well_formed(),
        v.stage is Write,
        agrees(v, o),
        v.wrote(result, now, step),
    ensures
        ({
            let event = Event::Wrote { result, now };
            expected(v, step, o.after(event), event)
        }),
{
    let event = Event::Wrote { result, now };
    let after = o.after(event);
    assert(same_chunk(v.files[v.files.len() - 1], o.chunks[o.chunks.len() - 1]));
    match result {
        Ok(n) => {
            if n == 0 {
                let error = choose|error: Error|
                    {
                        &&& error.kind == std::io::ErrorKind::WriteZero
                        &&& error.message@ == "failed to write whole buffer"@
                        &&& step == #[trigger] v.fail(error, Seq::empty())
                    };
                seen_fail(v, error, after, event);
            } else {
                let (index, offset) = v.cursor.advanced(v.writes, n as nat);
                let cursor = WriteCursor { index: index as usize, offset: offset as usize };
                let state = WorkerView { cursor, ..v };
                if index == v.writes.len() {
                    seen_written(state, now, after, event);
                }
            }
        },
        Err(error) => {
            if error.kind != std::io::ErrorKind::Interrupted {
                seen_fail(v, error, after, event);
            }
        },
    }
}

proof fn seen_synced<W: WalTypes>(
    v: WorkerView<W>,
    result: Result<(), Error>,
    now: u64,
    o: Onlooker<W>,
)
    requires
        v.well_formed(),
        v.stage is Sync,
        agrees(v, o),
    ensures
        ({
            let event = Event::Synced { result, now };
            expected(v, v.synced(result, now), o.after(event), event)
        }),
{
    let event = Event::<W>::Synced { result, now };
    let sync_time = Some(crate::wal::batch_metrics::elapsed(v.timing.sync_started, now));
    let timing = BatchTiming { sync_time, ..v.timing };
    let roll = v.stage->roll;
    match result {
        Ok(_) => {
            if !v.stage->last {
                seen_begin_sync(v, roll, Seq::empty(), o, event);
            } else {
                assert(same_chunk(v.files[0], o.chunks[o.chunks.len() - 1]));
                let synced = v.last_synced();
                assert(knows(synced, o)) by {
                    assert(same_chunk(synced.files[0], o.chunks[o.chunks.len() - 1]));
                }
                if !roll {
                    assert(effect_fits(v.persisted(), o, event, false));
                    let state = WorkerView { timing, ..synced };
                    assert(BatchTiming { sync_time: None, ..timing } == v.timing);
                    seen_finish_batch(state, Ok(()), seq![v.persisted()], now, o, event);
                }
            }
        },
        Err(error) => {
            if roll {
                seen_fail(v, error, o, event);
            } else {
                assert(BatchTiming { sync_time: None, ..timing } == v.timing);
                let state = WorkerView { timing, ..v };
                seen_finish_batch(state, Err(error), Seq::empty(), now, o, event);
            }
        },
    }
}

proof fn seen_leading_written<W: WalTypes>(
    v: WorkerView<W>,
    result: Result<(), Error>,
    kept: nat,
    o: Onlooker<W>,
)
    requires
        v.well_formed(),
        v.stage is WriteLeading,
        agrees(v, o),
    ensures
        ({
            let event = Event::LeadingWritten { result, kept };
            expected(v, v.leading_written(result), o.after(event), event)
        }),
{
    let event = Event::<W>::LeadingWritten { result, kept };
    let after = o.after(event);
    match result {
        Ok(_) => {
            let state = v.leading_written(result).state;
            assert forall|k: int| 0 <= k < state.files.len() implies same_chunk(
                #[trigger] state.files[k],
                after.chunks[after.chunks.len() - state.files.len() + k],
            ) by {
                if k < v.files.len() {
                    assert(same_chunk(v.files[k], o.chunks[o.chunks.len() - v.files.len() + k]));
                }
            }
        },
        Err(error) => {
            seen_fail(v, error, after, event);
        },
    }
}

proof fn seen_other<W: WalTypes>(
    v: WorkerView<W>,
    event: Event<W>,
    step: StepView<W>,
    o: Onlooker<W>,
)
    requires
        v.well_formed(),
        agrees(v, o),
        event.enabled(v),
        event.leads_to(v, step),
        event is Closed || event is Removed || event is Created || event is DirSynced,
    ensures
        expected(v, step, o.after(event), event),
{
    reveal(Event::leads_to);
    let after = o.after(event);
    match event {
        Event::Removed { result: Err(error) } => {
            seen_fail(v, error, after, event);
        },
        Event::Created { result: Err(error) } => {
            seen_fail(v, error, after, event);
        },
        Event::DirSynced { result: Err(error) } => {
            seen_fail(v, error, after, event);
        },
        Event::Created { result: Ok(file) } => {
            assert(after.files.last() == file);
            assert forall|i: int| 0 <= i < after.chunks.len() implies (#[trigger] after.chunks[i]).f
                == after.files[i] by {
                assert(o.chunks[i].f == o.files[i]);
            }
            assert forall|k: int| 0 <= k < v.files.len() implies same_chunk(
                #[trigger] step.state.files[k],
                after.chunks[after.chunks.len() - v.files.len() + k],
            ) by {
                assert(same_chunk(v.files[k], o.chunks[o.chunks.len() - v.files.len() + k]));
            }
        },
        _ => {},
    }
}

proof fn lemma_step_expected<W: WalTypes>(
    v: WorkerView<W>,
    event: Event<W>,
    step: StepView<W>,
    o: Onlooker<W>,
)
    requires
        v.well_formed(),
        agrees(v, o),
        event.enabled(v),
        event.leads_to(v, step),
        !(v.stage is Drain),
    ensures
        expected(v, step, o.after(event), event),
{
    match event {
        Event::Received { request, now } => {
            reveal(Event::leads_to);
            seen_received(v, request, now, o);
        },
        Event::ReceivedMore { request, now } => {
            reveal(Event::leads_to);
            seen_received_more(v, request, now, o);
        },
        Event::ReceivedNone { now } => {
            reveal(Event::leads_to);
            seen_start_write(v, now, o.after(event), event);
        },
        Event::Wrote { result, now } => {
            reveal(Event::leads_to);
            seen_wrote(v, result, now, step, o);
        },
        Event::Synced { result, now } => {
            reveal(Event::leads_to);
            seen_synced(v, result, now, o);
        },
        Event::LeadingWritten { result, kept } => {
            reveal(Event::leads_to);
            seen_leading_written(v, result, kept, o);
        },
        Event::Drained { .. } => {},
        _ => {
            seen_other(v, event, step, o);
        },
    }
}

/// As long as the worker has not failed, whatever it asks for and reports is
/// what an onlooker expects who knows only what has happened: data goes to the
/// newest chunk file; the wait for more requests ends at a fixed time after the
/// first one arrived; the newest chunk is reported as persisted up to the end
/// of the last write request, or to where the next chunk starts; callbacks are
/// told how the sync went; a new chunk's file is created at the path, filled
/// with the bytes and published in the slot that were asked for.
pub proof fn law_step_fits<W: WalTypes>(
    v: WorkerView<W>,
    event: Event<W>,
    step: StepView<W>,
    o: Onlooker<W>,
)
    requires
        v.well_formed(),
        agrees(v, o),
        event.enabled(v),
        event.leads_to(v, step),
        !(v.stage is Drain),
    ensures
        agrees(step.state, o.after(event)),
        step.state.wait == v.wait,
        step.state.max_items == v.max_items,
        fits(step, o.after(event), event),
{
    lemma_step_expected(v, event, step, o);
}

/// What an onlooker has noted down after the first `n` events.
pub open spec fn noted<W: WalTypes>(o: Onlooker<W>, events: Seq<Event<W>>, n: nat) -> Onlooker<W>
    decreases n,
{
    if n == 0 {
        o
    } else {
        noted(o, events, (n - 1) as nat).after(events[n - 1])
    }
}

/// In every run, each step before a failure, and the failing one, is what an
/// onlooker expects who has noted down the events up to it. The time to wait
/// for more requests and the size of a batch are those of the start.
pub proof fn law_run_fits<W: WalTypes>(
    states: Seq<WorkerView<W>>,
    events: Seq<Event<W>>,
    steps: Seq<StepView<W>>,
    o: Onlooker<W>,
    n: nat,
)
    requires
        crate::wal::worker_event::is_run(states, events, steps),
        states[0].well_formed(),
        agrees(states[0], o),
        n <= events.len(),
        forall|i: int| 0 <= i < n ==> !((#[trigger] states[i]).stage is Drain),
    ensures
        agrees(states[n as int], noted(o, events, n)),
        states[n as int].wait == states[0].wait,
        states[n as int].max_items == states[0].max_items,
        n > 0 ==> fits(steps[n - 1], noted(o, events, n), events[n - 1]),
    decreases n,
{
    if n > 0 {
        let i = n - 1;
        law_run_fits(states, events, steps, o, i as nat);
        crate::wal::step_shape::law_run_is_well_formed(states, events, steps, i as nat);
        assert(events[i].enabled(states[i]));
        law_step_fits(states[i], events[i], steps[i], noted(o, events, i as nat));
    }
}

/// In every run, once a new chunk's file has been created and its leading bytes
/// have been written, all data is written to that very file, until the next
/// one: the file of every write that is asked for is the one that the latest
/// creation returned.
pub proof fn law_data_goes_to_the_created_file<W: WalTypes>(
    states: Seq<WorkerView<W>>,
    events: Seq<Event<W>>,
    steps: Seq<StepView<W>>,
    o: Onlooker<W>,
    created: int,
    filled: int,
    n: int,
    file: Arc<W::File>,
)
    requires
        crate::wal::worker_event::is_run(states, events, steps),
        states[0].well_formed(),
        agrees(states[0], o),
        0 <= created < filled <= n < events.len(),
        events[created] == (Event::<W>::Created { result: Ok(file) }),
        events[filled] matches Event::LeadingWritten { result: Ok(_), .. },
        forall|i: int| created < i <= n ==> !((#[trigger] events[i]) is Created),
        forall|i: int| filled < i <= n ==> !((#[trigger] events[i]) is LeadingWritten),
        forall|i: int| 0 <= i <= n ==> !((#[trigger] states[i]).stage is Drain),
    ensures
        steps[n].action matches Action::Write { file: target } ==> target == file,
        noted(o, events, (n + 1) as nat).chunks.last().f == file,
    decreases n,
{
    law_run_fits(states, events, steps, o, (n + 1) as nat);
    lemma_latest_created(o, events, created, filled, file);
    lemma_chunks_kept(o, events, filled + 1, n + 1);
}

proof fn lemma_latest_created<W: WalTypes>(
    o: Onlooker<W>,
    events: Seq<Event<W>>,
    created: int,
    n: int,
    file: Arc<W::File>,
)
    requires
        0 <= created < n < events.len(),
        events[created] == (Event::<W>::Created { result: Ok(file) }),
        forall|i: int| created < i <= n ==> !((#[trigger] events[i]) is Created),
    ensures
        noted(o, events, n as nat).files.len() > 0,
        noted(o, events, n as nat).files.last() == file,
    decreases n,
{
    if n > created + 1 {
        lemma_latest_created(o, events, created, n - 1, file);
        assert(!(events[n - 1] is Created));
    }
}

proof fn lemma_chunks_kept<W: WalTypes>(o: Onlooker<W>, events: Seq<Event<W>>, m: int, n: int)
    requires
        0 <= m <= n <= events.len(),
        forall|i: int| m <= i < n ==> !((#[trigger] events[i]) is LeadingWritten),
    ensures
        noted(o, events, n as nat).chunks == noted(o, events, m as nat).chunks,
    decreases n,
{
    if n > m {
        lemma_chunks_kept(o, events, m, n - 1);
        assert(!(events[n - 1] is LeadingWritten));
    }
}

/// The write request that an event brings, if it brings one.
pub open spec fn write_of<W: WalTypes>(event: Event<W>) -> Option<WriteRequest<W>> {
    match event {
        Event::Received { request: SeqRequest { req: WorkerRequest::Write(write), .. }, .. } => {
            Some(write)
        },
        Event::ReceivedMore { request: SeqRequest { req: WorkerRequest::Write(write), .. }, .. } => {
            Some(write)
        },
        _ => None,
    }
}

/// In every run, when a batch has been synced, the log is reported as persisted
/// up to the end of the last write request that had arrived. When the files have
/// been synced for a new chunk, it is reported up to where that chunk starts.
pub proof fn law_persisted_up_to_the_last_request<W: WalTypes>(
    states: Seq<WorkerView<W>>,
    events: Seq<Event<W>>,
    steps: Seq<StepView<W>>,
    o: Onlooker<W>,
    last: int,
    n: int,
    k: int,
)
    requires
        crate::wal::worker_event::is_run(states, events, steps),
        states[0].well_formed(),
        agrees(states[0], o),
        0 <= last <= n < events.len(),
        forall|i: int| 0 <= i <= n ==> !((#[trigger] states[i]).stage is Drain),
        0 <= k < steps[n].effects.len(),
        steps[n].effects[k] is Persisted,
        if steps[n].action is Create {
            &&& roll_of(events[last]) is Some
            &&& forall|i: int| last < i <= n ==> roll_of(#[trigger] events[i]) is None
        } else {
            &&& write_of(events[last]) is Some
            &&& forall|i: int|
                last < i <= n ==> write_of(#[trigger] events[i]) is None && !(events[i] is Received)
        },
    ensures
        steps[n].effects[k]->call.persisted.synced_offset == if steps[n].action is Create {
            roll_of(events[last])->0.starting_offset
        } else {
            write_of(events[last])->0.upto_offset
        },
{
    law_run_fits(states, events, steps, o, (n + 1) as nat);
    let noted = noted(o, events, (n + 1) as nat);
    assert(effect_fits(steps[n].effects[k], noted, events[n], steps[n].action is Create));
    if steps[n].action is Create {
        lemma_latest_roll(o, events, last, n);
    } else {
        lemma_latest_write(o, events, last, n);
    }
}

/// The request for a new chunk that an event brings, if it brings one.
pub open spec fn roll_of<W: WalTypes>(event: Event<W>) -> Option<RollRequest<W>> {
    match event {
        Event::Received { request: SeqRequest { req: WorkerRequest::Roll(roll), .. }, .. } => {
            Some(roll)
        },
        Event::ReceivedMore { request: SeqRequest { req: WorkerRequest::Roll(roll), .. }, .. } => {
            Some(roll)
        },
        _ => None,
    }
}

proof fn lemma_latest_roll<W: WalTypes>(
    o: Onlooker<W>,
    events: Seq<Event<W>>,
    last: int,
    n: int,
)
    requires
        0 <= last <= n < events.len(),
        roll_of(events[last]) is Some,
        forall|i: int| last < i <= n ==> roll_of(#[trigger] events[i]) is None,
    ensures
        noted(o, events, (n + 1) as nat).roll == roll_of(events[last]),
    decreases n,
{
    if n > last {
        lemma_latest_roll(o, events, last, n - 1);
        assert(roll_of(events[n]) is None);
    }
}

proof fn lemma_latest_write<W: WalTypes>(
    o: Onlooker<W>,
    events: Seq<Event<W>>,
    last: int,
    n: int,
)
    requires
        0 <= last <= n < events.len(),
        write_of(events[last]) is Some,
        forall|i: int|
            last < i <= n ==> write_of(#[trigger] events[i]) is None && !(events[i] is Received),
    ensures
        noted(o, events, (n + 1) as nat).batch.len() > 0,
        Some(noted(o, events, (n + 1) as nat).batch.last().write) == write_of(events[last]),
    decreases n,
{
    if n > last {
        lemma_latest_write(o, events, last, n - 1);
        assert(write_of(events[n]) is None);
    }
}

/// In every run, while a batch is being collected, the worker asks to wait until
/// the configured time after the arrival of the batch's first request, as far
/// as the clock reaches: never longer, and never less.
pub proof fn law_wait_ends_when_it_is_due<W: WalTypes>(
    states: Seq<WorkerView<W>>,
    events: Seq<Event<W>>,
    steps: Seq<StepView<W>>,
    o: Onlooker<W>,
    first: int,
    n: int,
)
    requires
        crate::wal::worker_event::is_run(states, events, steps),
        states[0].well_formed(),
        agrees(states[0], o),
        0 <= first <= n < events.len(),
        events[first] is Received,
        forall|i: int| first < i <= n ==> !((#[trigger] events[i]) is Received),
        forall|i: int| 0 <= i <= n ==> !((#[trigger] states[i]).stage is Drain),
    ensures
        steps[n].action matches Action::ReceiveTimeout { remaining } ==> {
            let due = time_of(events[first]) + states[0].wait;
            time_of(events[n]) + remaining == if due <= u64::MAX {
                due
            } else {
                u64::MAX as int
            }
        },
{
    law_run_fits(states, events, steps, o, (n + 1) as nat);
    lemma_first_arrival(o, events, first, n);
}

proof fn lemma_first_arrival<W: WalTypes>(
    o: Onlooker<W>,
    events: Seq<Event<W>>,
    first: int,
    n: int,
)
    requires
        0 <= first <= n < events.len(),
        events[first] is Received,
        forall|i: int| first < i <= n ==> !((#[trigger] events[i]) is Received),
    ensures
        noted(o, events, (n + 1) as nat).first_arrival == time_of(events[first]),
    decreases n,
{
    if n > first {
        lemma_first_arrival(o, events, first, n - 1);
        assert(!(events[n] is Received));
    }
}

/// The files that the worker names are those whose contents its events change:
/// `disk` lists the files' contents, the onlooker their handles, in the same
/// order.
pub proof fn law_actions_name_the_files_on_disk<W: WalTypes>(
    v: WorkerView<W>,
    event: Event<W>,
    step: StepView<W>,
    o: Onlooker<W>,
    disk: Seq<crate::wal::durability::FileState>,
)
    requires
        v.well_formed(),
        agrees(v, o),
        crate::wal::durability::tracks(v, disk),
        o.files.len() == disk.len(),
        event.enabled(v),
        event.leads_to(v, step),
        event.batch(v).len() <= usize::MAX,
        !(v.stage is Drain),
    ensures
        ({
            let after = event.applied(v, disk);
            let files = o.after(event).files;
            &&& files.len() == after.len()
            &&& step.action matches Action::Write { file } ==> file
                == files[crate::wal::durability::current(step.state, after)]
            &&& step.action matches Action::Sync { file } ==> file
                == files[crate::wal::durability::sync_position(step.state, after)]
            &&& step.action matches Action::WriteLeading { file } ==> file
                == files[crate::wal::durability::current(step.state, after) + 1]
        }),
{
    let noted = o.after(event);
    law_step_fits(v, event, step, o);
    crate::wal::step_shape::law_step_is_well_formed(v, event, step);
    crate::wal::durability::law_step_tracks(v, event, step, disk);
    assert(step.action is Write ==> noted.chunks[noted.chunks.len() - 1].f
        == noted.files[noted.chunks.len() - 1]);
}

/// An operation that fails stops the worker, and nothing else does: the error
/// that stopped it is recorded and reported, as the last effect. A sync that
/// fails stops it only while a new chunk waits for it; otherwise the callbacks
/// of the batch are told.
pub proof fn law_failures_stop_the_worker<W: WalTypes>(
    v: WorkerView<W>,
    event: Event<W>,
    step: StepView<W>,
    o: Onlooker<W>,
)
    requires
        v.well_formed(),
        agrees(v, o),
        event.enabled(v),
        event.leads_to(v, step),
        !(v.stage is Drain),
    ensures
        step.state.stage is Drain <==> (exists|error: Error| #[trigger] fails_with(event, error))
            && (event is Synced ==> v.roll is Some),
        step.state.stage is Drain ==> {
            &&& step.state.failure matches Some(error)
            &&& fails_with(event, error)
            &&& step.effects.last() == (Effect::<W>::Stopped { failure: Some(error) })
        },
{
    law_step_fits(v, event, step, o);
    if step.state.stage is Drain {
        crate::wal::accounting::law_failure_settles_slots(v, event, step);
        let last = step.effects.len() - 1;
        assert(effect_fits(step.effects[last], o.after(event), event, step.action is Create));
    }
    match event {
        Event::Wrote { result: Ok(n), .. } => {
            reveal(Event::leads_to);
            if n == 0 {
                let error = choose|error: Error|
                    {
                        &&& error.kind == std::io::ErrorKind::WriteZero
                        &&& error.message@ == "failed to write whole buffer"@
                        &&& step == #[trigger] v.fail(error, Seq::empty())
                    };
                assert(fails_with(event, error));
            }
        },
        Event::Wrote { result: Err(error), .. } => {
            reveal(Event::leads_to);
            assert(fails_with(event, error) <==> error.kind != std::io::ErrorKind::Interrupted);
        },
        Event::Synced { result: Err(error), now } => {
            reveal(Event::leads_to);
            assert(fails_with(event, error));
            let sync_time = Some(crate::wal::batch_metrics::elapsed(v.timing.sync_started, now));
            let timing = BatchTiming { sync_time, ..v.timing };
            let state = WorkerView { timing, ..v };
            lemma_finish_batch_goes_on(state, Err(error), Seq::empty(), now);
        },
        Event::Removed { result: Err(error) } => {
            reveal(Event::leads_to);
            assert(fails_with(event, error));
        },
        Event::Created { result: Err(error) } => {
            reveal(Event::leads_to);
            assert(fails_with(event, error));
        },
        Event::DirSynced { result: Err(error) } => {
            reveal(Event::leads_to);
            assert(fails_with(event, error));
        },
        Event::LeadingWritten { result: Err(error), .. } => {
            reveal(Event::leads_to);
            assert(fails_with(event, error));
        },
        _ => {},
    }
}

proof fn lemma_finish_batch_goes_on<W: WalTypes>(
    v: WorkerView<W>,
    result: Result<(), Error>,
    effects: Seq<Effect<W>>,
    now: u64,
)
    ensures
        !(v.finish_batch(result, effects, now).state.stage is Drain),
{
}

/// A write that is interrupted is asked for again, and changes nothing.
pub proof fn law_interrupted_write_is_tried_again<W: WalTypes>(
    v: WorkerView<W>,
    event: Event<W>,
    step: StepView<W>,
    o: Onlooker<W>,
)
    requires
        v.well_formed(),
        agrees(v, o),
        event.enabled(v),
        event.leads_to(v, step),
        event matches Event::Wrote { result: Err(error), .. } && error.kind
            == std::io::ErrorKind::Interrupted,
    ensures
        step.state == v,
        step.effects == Seq::<Effect<W>>::empty(),
        step.action == (Action::<W>::Write { file: o.chunks.last().f }),
{
    reveal(Event::leads_to);
    assert(same_chunk(v.files[v.files.len() - 1], o.chunks[o.chunks.len() - 1]));
}

/// After a failure, every request that is left is taken off the queue and
/// dropped: a new chunk that it asks for is marked as failed, for the reason
/// for which the worker failed, and nothing else is done. When the queue is
/// empty, the worker quits.
pub proof fn law_drained_requests_are_dropped<W: WalTypes>(
    v: WorkerView<W>,
    request: Option<SeqRequest<W>>,
    step: StepView<W>,
)
    requires
        v.well_formed(),
        (Event::Drained { request }).enabled(v),
        (Event::Drained { request }).leads_to(v, step),
    ensures
        step.state.failure == v.failure,
        match request {
            Some(request) => {
                &&& step.action is Drain
                &&& step.state.stage is Drain
                &&& match request.req {
                    WorkerRequest::Roll(roll) => step.effects == seq![
                        Effect::<W>::FailSlot { slot: roll.file_slot, error: v.failure->0 },
                    ],
                    _ => step.effects.len() == 0,
                }
            },
            None => {
                &&& step.action is Quit
                &&& step.effects.len() == 0
            },
        },
{
    reveal(Event::leads_to);
}

} // verus!
