//! That the flush worker gets on with its work.
//!
//! Every event brings the worker nearer to the state in which it waits for the
//! next request, except a request, which gives it more to do, and an
//! interrupted write, which changes nothing.

use crate::errors::Error;
use crate::types::WalTypes;
use crate::wal::batch_metrics::BatchTiming;
use crate::wal::flush_request::WorkerRequest;
use crate::wal::vectored_write::WriteCursor;
use crate::wal::worker_event::Event;
use crate::wal::worker_model::StepView;
use crate::wal::worker_model::WorkerView;
use crate::wal::worker_step::Effect;
use crate::wal::worker_step::Stage;
use vstd::prelude::*;

verus! {

/// How many phases the worker may still go through, including the present
/// one, before it waits for a request or has stopped.
pub open spec fn phases_left(stage: Stage) -> nat {
    match stage {
        Stage::Collect => 9,
        Stage::Write => 8,
        Stage::Sync { roll: false, .. } => 7,
        Stage::Sync { roll: true, .. } => 6,
        Stage::Create => 5,
        Stage::SyncDir => 4,
        Stage::WriteLeading => 3,
        Stage::Remove => 2,
        Stage::Receive => 1,
        Stage::Drain => 1,
        Stage::Stopped => 0,
    }
}

/// How much is left to do in the present phase: bytes to write, files to sync
/// or files to remove.
pub open spec fn left_in_phase<W: WalTypes>(v: WorkerView<W>) -> nat {
    match v.stage {
        Stage::Write => v.cursor.remaining(v.writes).len(),
        Stage::Sync { last: true, .. } => 0,
        Stage::Sync { last: false, .. } => v.files.len(),
        Stage::Remove => v.removals.len(),
        _ => 0,
    }
}

/// In state `after` the worker has less to do than in state `before`.
pub open spec fn nearer<W: WalTypes>(before: WorkerView<W>, after: WorkerView<W>) -> bool {
    ||| phases_left(after.stage) < phases_left(before.stage)
    ||| {
        &&& phases_left(after.stage) == phases_left(before.stage)
        &&& left_in_phase(after) < left_in_phase(before)
    }
}

/// The event takes a request off the queue.
pub open spec fn takes_request<W: WalTypes>(event: Event<W>) -> bool {
    match event {
        Event::Received { .. } | Event::ReceivedMore { .. } => true,
        Event::Drained { request } => request is Some,
        _ => false,
    }
}

/// A write was interrupted before it wrote anything.
pub open spec fn is_interruption<W: WalTypes>(event: Event<W>) -> bool {
    event matches Event::Wrote { result: Err(error), .. } && error.kind
        == std::io::ErrorKind::Interrupted
}

proof fn near_control<W: WalTypes>(
    v: WorkerView<W>,
    req: WorkerRequest<W>,
    effects: Seq<Effect<W>>,
)
    ensures
        phases_left(v.control(req, effects).state.stage) <= 6,
{
}

proof fn near_finish_batch<W: WalTypes>(
    v: WorkerView<W>,
    result: Result<(), Error>,
    effects: Seq<Effect<W>>,
    now: u64,
)
    ensures
        phases_left(v.finish_batch(result, effects, now).state.stage) <= 6,
{
    let metrics = crate::wal::batch_metrics::batch_metrics(v.writes, v.timing, now);
    let told = effects.push(Effect::RecordBatch { metrics })
        + crate::wal::worker_model::notifications(v.writes, result);
    if let Some(request) = v.pending {
        let seq = if request.seq > v.max_seq {
            request.seq
        } else {
            v.max_seq
        };
        near_control(WorkerView { seq, ..v.idle() }, request.req, told);
    }
}

proof fn near_written<W: WalTypes>(v: WorkerView<W>, now: u64)
    ensures
        phases_left(v.written(now).state.stage) <= 7,
{
    let released = crate::wal::worker_model::releases(v.writes);
    let write_time = crate::wal::batch_metrics::elapsed(v.timing.batch_started, now);
    let timing = BatchTiming { write_time, sync_started: now, ..v.timing };
    near_finish_batch(WorkerView { timing, ..v }, Ok(()), released, now);
}

proof fn near_start_write<W: WalTypes>(v: WorkerView<W>, now: u64)
    ensures
        phases_left(v.start_write(now).state.stage) <= 8,
{
    let group_wait = crate::wal::batch_metrics::elapsed(v.timing.collect_started, now);
    let timing = BatchTiming { group_wait, batch_started: now, ..v.timing };
    let first = crate::wal::vectored_write::first_with_data(v.writes, 0);
    let cursor = WriteCursor { index: first as usize, offset: 0 };
    near_written(WorkerView { timing, cursor, ..v }, now);
}

proof fn near_wrote<W: WalTypes>(
    v: WorkerView<W>,
    result: Result<usize, Error>,
    now: u64,
    step: StepView<W>,
)
    requires
        v.well_formed(),
        v.stage is Write,
        v.writes.len() <= usize::MAX,
        result matches Ok(n) ==> n <= v.cursor.offered(v.writes).len(),
        result matches Err(error) ==> error.kind != std::io::ErrorKind::Interrupted,
        v.wrote(result, now, step),
    ensures
        nearer(v, step.state),
{
    if let Ok(n) = result {
        if n > 0 {
            crate::wal::vectored_write::lemma_offered_is_prefix(v.cursor, v.writes);
            crate::wal::vectored_write::law_advance_leaves_the_rest(
                v.cursor,
                v.writes,
                n as nat,
            );
            let (index, offset) = v.cursor.advanced(v.writes, n as nat);
            let cursor = WriteCursor { index: index as usize, offset: offset as usize };
            near_written(WorkerView { cursor, ..v }, now);
        }
    }
}

proof fn near_synced<W: WalTypes>(v: WorkerView<W>, result: Result<(), Error>, now: u64)
    requires
        v.well_formed(),
        v.stage is Sync,
    ensures
        nearer(v, v.synced(result, now).state),
{
    let sync_time = Some(crate::wal::batch_metrics::elapsed(v.timing.sync_started, now));
    let timing = BatchTiming { sync_time, ..v.timing };
    match result {
        Ok(_) => {
            let state = WorkerView { timing, ..v.last_synced() };
            near_finish_batch(state, Ok(()), seq![v.persisted()], now);
        },
        Err(error) => {
            near_finish_batch(WorkerView { timing, ..v }, Err(error), Seq::empty(), now);
        },
    }
}

proof fn near_removed<W: WalTypes>(v: WorkerView<W>, result: Result<(), Error>)
    requires
        v.well_formed(),
        v.stage is Remove,
    ensures
        nearer(v, v.removed(result).state),
{
}

/// Every event but a request and an interrupted write leaves the worker with
/// less to do, so it comes to wait for the next request, or stops.
pub proof fn law_worker_gets_on<W: WalTypes>(v: WorkerView<W>, event: Event<W>, step: StepView<W>)
    requires
        v.well_formed(),
        event.enabled(v),
        event.leads_to(v, step),
        event.batch(v).len() <= usize::MAX,
        !takes_request(event),
        !is_interruption(event),
    ensures
        nearer(v, step.state),
{
    match event {
        Event::Received { .. } => {},
        Event::Closed => {
            reveal(Event::leads_to);
        },
        Event::ReceivedMore { .. } => {},
        Event::ReceivedNone { now } => {
            reveal(Event::leads_to);
            near_start_write(v, now);
        },
        Event::Wrote { result, now } => {
            reveal(Event::leads_to);
            near_wrote(v, result, now, step);
        },
        Event::Synced { result, now } => {
            reveal(Event::leads_to);
            near_synced(v, result, now);
        },
        Event::Removed { result } => {
            reveal(Event::leads_to);
            near_removed(v, result);
        },
        Event::Created { result } => {
            reveal(Event::leads_to);
        },
        Event::DirSynced { result } => {
            reveal(Event::leads_to);
        },
        Event::LeadingWritten { result, .. } => {
            reveal(Event::leads_to);
        },
        Event::Drained { request } => {
            reveal(Event::leads_to);
        },
    }
}

} // verus!
