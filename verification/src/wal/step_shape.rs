//! What every step of the flush worker has in common.

use crate::errors::Error;
use crate::types::WalTypes;
use crate::wal::batch_metrics::BatchTiming;
use crate::wal::flush_request::SeqRequest;
use crate::wal::flush_request::WorkerRequest;
use crate::wal::queued_write::QueuedWrite;
use crate::wal::vectored_write::WriteCursor;
use crate::wal::worker_event::Event;
use crate::wal::worker_model::StepView;
use crate::wal::worker_model::WorkerView;
use crate::wal::worker_step::Effect;
use std::sync::Arc;
use vstd::prelude::*;

verus! {

/// A file is reported as persisted.
pub open spec fn reports_persisted<W: WalTypes>(effects: Seq<Effect<W>>) -> bool {
    exists|i: int| 0 <= i < effects.len() && (#[trigger] effects[i]) is Persisted
}

/// Effects report that the worker processes no more requests.
pub open spec fn reports_stop<W: WalTypes>(effects: Seq<Effect<W>>) -> bool {
    exists|i: int| 0 <= i < effects.len() && (#[trigger] effects[i]) is Stopped
}

/// The worker reports that it processes no more requests at the end of a step
/// only, and only if that is so.
pub open spec fn stops_at_end<W: WalTypes>(step: StepView<W>) -> bool {
    forall|i: int|
        0 <= i < step.effects.len() && (#[trigger] step.effects[i]) is Stopped ==> {
            &&& i == step.effects.len() - 1
            &&& step.state.stage is Drain || step.state.stage is Stopped
        }
}

/// What the inner transitions have in common: they lead to a well-formed
/// step, leave the list of files alone but for a file handed out to be
/// synced, report no file as persisted, and report a stop at the end only.
spec fn framed<W: WalTypes>(
    v: WorkerView<W>,
    effects: Seq<Effect<W>>,
    step: StepView<W>,
) -> bool {
    &&& step.well_formed()
    &&& step.state.files == v.files || step.state.files == v.files.drop_first()
    &&& reports_persisted(step.effects) ==> reports_persisted(effects)
    &&& !reports_stop(effects) ==> stops_at_end(step)
}

/// The worker holds a batch that is complete, or no batch.
spec fn between_phases<W: WalTypes>(v: WorkerView<W>) -> bool {
    &&& v.files.len() > 0
    &&& v.roll is None
    &&& v.pending is Some ==> !(v.pending->0.req is Write)
}

proof fn frame_control<W: WalTypes>(
    v: WorkerView<W>,
    req: WorkerRequest<W>,
    effects: Seq<Effect<W>>,
)
    requires
        between_phases(v),
        v.pending is None,
        v.writes.len() == 0,
        !(req is Write),
    ensures
        framed(v, effects, v.control(req, effects)),
        !(v.control(req, effects).state.stage is Stopped),
{
}

proof fn frame_notifications<W: WalTypes>(writes: Seq<QueuedWrite<W>>, result: Result<(), Error>)
    ensures
        !reports_persisted(crate::wal::worker_model::notifications(writes, result)),
        !reports_stop(crate::wal::worker_model::notifications(writes, result)),
    decreases writes.len(),
{
    if writes.len() > 0 {
        frame_notifications(writes.drop_last(), result);
    }
}

proof fn frame_finish_batch<W: WalTypes>(
    v: WorkerView<W>,
    result: Result<(), Error>,
    effects: Seq<Effect<W>>,
    now: u64,
)
    requires
        between_phases(v),
    ensures
        framed(v, effects, v.finish_batch(result, effects, now)),
        !(v.finish_batch(result, effects, now).state.stage is Stopped),
{
    let metrics = crate::wal::batch_metrics::batch_metrics(v.writes, v.timing, now);
    let told = effects.push(Effect::RecordBatch { metrics })
        + crate::wal::worker_model::notifications(v.writes, result);
    frame_notifications(v.writes, result);
    assert(reports_persisted(told) ==> reports_persisted(effects));
    assert(reports_stop(told) ==> reports_stop(effects));
    if let Some(request) = v.pending {
        let seq = if request.seq > v.max_seq {
            request.seq
        } else {
            v.max_seq
        };
        frame_control(WorkerView { seq, ..v.idle() }, request.req, told);
    }
}

proof fn frame_written<W: WalTypes>(v: WorkerView<W>, now: u64)
    requires
        between_phases(v),
        v.writes.len() > 0,
    ensures
        framed(v, Seq::empty(), v.written(now)),
        !(v.written(now).state.stage is Stopped),
{
    let released = crate::wal::worker_model::releases(v.writes);
    assert(!reports_persisted(released));
    assert(!reports_stop(released));
    let write_time = crate::wal::batch_metrics::elapsed(v.timing.batch_started, now);
    let timing = BatchTiming { write_time, sync_started: now, ..v.timing };
    frame_finish_batch(WorkerView { timing, ..v }, Ok(()), released, now);
}

proof fn frame_start_write<W: WalTypes>(v: WorkerView<W>, now: u64)
    requires
        between_phases(v),
        0 < v.writes.len() <= usize::MAX,
    ensures
        framed(v, Seq::empty(), v.start_write(now)),
        !(v.start_write(now).state.stage is Stopped),
{
    let group_wait = crate::wal::batch_metrics::elapsed(v.timing.collect_started, now);
    let timing = BatchTiming { group_wait, batch_started: now, ..v.timing };
    let first = crate::wal::vectored_write::first_with_data(v.writes, 0);
    let cursor = WriteCursor { index: first as usize, offset: 0 };
    crate::wal::vectored_write::lemma_first_with_data(v.writes, 0);
    frame_written(WorkerView { timing, cursor, ..v }, now);
}

proof fn frame_collect_more<W: WalTypes>(v: WorkerView<W>, now: u64)
    requires
        between_phases(v),
        0 < v.writes.len() <= usize::MAX,
    ensures
        framed(v, Seq::empty(), v.collect_more(now)),
        !(v.collect_more(now).state.stage is Stopped),
{
    frame_start_write(v, now);
}

proof fn frame_fail<W: WalTypes>(v: WorkerView<W>, error: Error)
    requires
        v.files.len() > 0,
    ensures
        framed(v, Seq::empty(), v.fail(error, Seq::empty())),
        !(v.fail(error, Seq::empty()).state.stage is Stopped),
{
}

proof fn frame_wrote<W: WalTypes>(
    v: WorkerView<W>,
    result: Result<usize, Error>,
    now: u64,
    step: StepView<W>,
)
    requires
        v.well_formed(),
        v.stage is Write,
        v.writes.len() <= usize::MAX,
        result matches Ok(n) ==> n <= v.cursor.offered(v.writes).len(),
        v.wrote(result, now, step),
    ensures
        framed(v, Seq::empty(), step),
        !(step.state.stage is Stopped),
{
    match result {
        Ok(n) => {
            if n == 0 {
                let error = choose|error: Error|
                    {
                        &&& error.kind == std::io::ErrorKind::WriteZero
                        &&& error.message@ == "failed to write whole buffer"@
                        &&& step == #[trigger] v.fail(error, Seq::empty())
                    };
                frame_fail(v, error);
            } else {
                crate::wal::vectored_write::law_advance_leaves_the_rest(
                    v.cursor,
                    v.writes,
                    n as nat,
                );
                let (index, offset) = v.cursor.advanced(v.writes, n as nat);
                let cursor = WriteCursor { index: index as usize, offset: offset as usize };
                frame_written(WorkerView { cursor, ..v }, now);
            }
        },
        Err(error) => {
            frame_fail(v, error);
        },
    }
}

proof fn frame_closed<W: WalTypes>(v: WorkerView<W>)
    requires
        v.well_formed(),
        v.stage is Receive,
    ensures
        framed(v, Seq::empty(), v.closed()),
{
}

proof fn frame_removed<W: WalTypes>(v: WorkerView<W>, result: Result<(), Error>)
    requires
        v.well_formed(),
        v.stage is Remove,
    ensures
        framed(v, Seq::empty(), v.removed(result)),
        !(v.removed(result).state.stage is Stopped),
{
}

proof fn frame_created<W: WalTypes>(v: WorkerView<W>, result: Result<Arc<W::File>, Error>)
    requires
        v.well_formed(),
        v.stage is Create,
    ensures
        framed(v, Seq::empty(), v.created(result)),
        !(v.created(result).state.stage is Stopped),
{
}

proof fn frame_dir_synced<W: WalTypes>(v: WorkerView<W>, result: Result<(), Error>)
    requires
        v.well_formed(),
        v.stage is SyncDir,
    ensures
        framed(v, Seq::empty(), v.dir_synced(result)),
        !(v.dir_synced(result).state.stage is Stopped),
{
}

/// A new chunk's file joins the list, not synced yet.
proof fn frame_leading_written<W: WalTypes>(v: WorkerView<W>, result: Result<(), Error>)
    requires
        v.well_formed(),
        v.stage is WriteLeading,
    ensures
        ({
            let step = v.leading_written(result);
            &&& step.well_formed()
            &&& !reports_persisted(step.effects)
            &&& stops_at_end(step)
            &&& !(step.state.stage is Stopped)
            &&& if result is Ok {
                &&& step.state.files.len() == v.files.len() + 1
                &&& step.state.files.drop_last() == v.files
                &&& step.state.files.last().sync_id == 0
            } else {
                step.state.files == v.files
            }
        }),
{
    let step = v.leading_written(result);
    if result is Ok {
        assert(step.state.files.drop_last() =~= v.files);
    }
}

proof fn frame_drained<W: WalTypes>(v: WorkerView<W>, request: Option<SeqRequest<W>>)
    requires
        v.well_formed(),
        v.stage is Drain,
    ensures
        framed(v, Seq::empty(), v.drained(request)),
        !reports_stop(v.drained(request).effects),
{
}

/// After a sync, the files are those before it, the last one marked as synced
/// if it was the one, or one fewer if more are to be synced.
proof fn frame_synced<W: WalTypes>(v: WorkerView<W>, result: Result<(), Error>, now: u64)
    requires
        v.well_formed(),
        v.stage is Sync,
    ensures
        ({
            let step = v.synced(result, now);
            let done = result is Ok && v.stage->last;
            let files = if done {
                v.last_synced().files
            } else {
                v.files
            };
            &&& step.well_formed()
            &&& step.state.files == files || step.state.files == files.drop_first()
            &&& reports_persisted(step.effects) ==> done
            &&& stops_at_end(step)
            &&& !(step.state.stage is Stopped)
            &&& done ==> step.effects.len() > 0 && step.effects[0] == v.persisted()
        }),
{
    let sync_time = Some(crate::wal::batch_metrics::elapsed(v.timing.sync_started, now));
    let timing = BatchTiming { sync_time, ..v.timing };
    match result {
        Ok(_) => {
            if v.stage->last && !v.stage->roll {
                let state = WorkerView { timing, ..v.last_synced() };
                frame_finish_batch(state, Ok(()), seq![v.persisted()], now);
                lemma_finish_batch_keeps_effects(state, Ok(()), seq![v.persisted()], now);
            }
        },
        Err(error) => {
            frame_fail(v, error);
            if !v.stage->roll {
                frame_finish_batch(WorkerView { timing, ..v }, Err(error), Seq::empty(), now);
            }
        },
    }
}

/// Effects come after those already due.
proof fn lemma_finish_batch_keeps_effects<W: WalTypes>(
    v: WorkerView<W>,
    result: Result<(), Error>,
    effects: Seq<Effect<W>>,
    now: u64,
)
    requires
        effects.len() > 0,
    ensures
        v.finish_batch(result, effects, now).effects.len() > 0,
        v.finish_batch(result, effects, now).effects[0] == effects[0],
{
}

/// What a step does to the list of files, when it reports a file as
/// persisted, and when it stops and reports so.
pub open spec fn files_follow<W: WalTypes>(
    v: WorkerView<W>,
    event: Event<W>,
    step: StepView<W>,
) -> bool {
    let done = event matches Event::Synced { result: Ok(_), .. } && v.stage->last;
    let files = if done {
        v.last_synced().files
    } else {
        v.files
    };
    &&& step.well_formed()
    &&& stops_at_end(step)
    &&& v.stage is Drain ==> !reports_stop(step.effects)
    &&& step.state.stage is Stopped ==> event is Closed || event is Drained
    &&& event is Closed ==> {
        &&& step.state.stage is Stopped
        &&& step.effects == seq![Effect::<W>::Stopped { failure: None }]
    }
    &&& event is Drained ==> step.state.stage is Drain || step.state.stage is Stopped
    &&& reports_persisted(step.effects) ==> done && step.effects[0] == v.persisted()
    &&& {
        ||| step.state.files == files
        ||| step.state.files == files.drop_first()
        ||| event matches Event::LeadingWritten { result: Ok(_), .. }
            && step.state.files.len() == files.len() + 1
            && step.state.files.drop_last() == files
            && step.state.files.last().sync_id == 0
    }
}

/// Every step does to the list of files what [`files_follow`] says.
pub proof fn lemma_files_follow<W: WalTypes>(v: WorkerView<W>, event: Event<W>, step: StepView<W>)
    requires
        v.well_formed(),
        event.enabled(v),
        event.leads_to(v, step),
        event.batch(v).len() <= usize::MAX,
    ensures
        files_follow(v, event, step),
{
    match event {
        Event::Received { request, now } => {
            reveal(Event::leads_to);
            if request.req is Write {
                frame_collect_more(v.begun(request, now), now);
            } else {
                frame_control(WorkerView { seq: request.seq, ..v }, request.req, Seq::empty());
            }
        },
        Event::Closed => {
            reveal(Event::leads_to);
            frame_closed(v);
        },
        Event::ReceivedMore { request, now } => {
            reveal(Event::leads_to);
            frame_collect_more(v.pushed(request), now);
        },
        Event::ReceivedNone { now } => {
            reveal(Event::leads_to);
            frame_start_write(v, now);
        },
        Event::Wrote { result, now } => {
            reveal(Event::leads_to);
            frame_wrote(v, result, now, step);
        },
        Event::Synced { result, now } => {
            reveal(Event::leads_to);
            frame_synced(v, result, now);
        },
        Event::Removed { result } => {
            reveal(Event::leads_to);
            frame_removed(v, result);
        },
        Event::Created { result } => {
            reveal(Event::leads_to);
            frame_created(v, result);
        },
        Event::DirSynced { result } => {
            reveal(Event::leads_to);
            frame_dir_synced(v, result);
        },
        Event::LeadingWritten { result, .. } => {
            reveal(Event::leads_to);
            frame_leading_written(v, result);
        },
        Event::Drained { request } => {
            reveal(Event::leads_to);
            frame_drained(v, request);
        },
    }
}

/// Every step leaves the worker in a state it can be in between two events,
/// and asks for the event that the worker waits for.
pub proof fn law_step_is_well_formed<W: WalTypes>(
    v: WorkerView<W>,
    event: Event<W>,
    step: StepView<W>,
)
    requires
        v.well_formed(),
        event.enabled(v),
        event.leads_to(v, step),
        event.batch(v).len() <= usize::MAX,
    ensures
        step.well_formed(),
{
    lemma_files_follow(v, event, step);
}

/// The offset up to which a file counts as synced changes only when the file
/// is synced: a write that asks for no sync does not advance it.
pub proof fn law_sync_id_follows_syncs<W: WalTypes>(
    v: WorkerView<W>,
    event: Event<W>,
    step: StepView<W>,
    i: int,
)
    requires
        v.well_formed(),
        event.enabled(v),
        event.leads_to(v, step),
        event.batch(v).len() <= usize::MAX,
        0 <= i < step.state.files.len(),
    ensures
        ({
            let entry = step.state.files[i];
            ||| v.files.contains(entry)
            ||| event matches Event::LeadingWritten { result: Ok(_), .. } && entry.sync_id == 0
            ||| event matches Event::Synced { result: Ok(_), .. } && v.stage->last
                && entry.sync_id == v.sync_offset
        }),
{
    lemma_files_follow(v, event, step);
    let entry = step.state.files[i];
    if i < v.files.len() && entry == v.files[i] {
    } else if i + 1 < v.files.len() && entry == v.files[i + 1] {
    } else if event is LeadingWritten && i < v.files.len() {
        assert(step.state.files.drop_last()[i] == v.files[i]);
    }
}

/// In every run, the worker is in a state it can be in between two events.
pub proof fn law_run_is_well_formed<W: WalTypes>(
    states: Seq<WorkerView<W>>,
    events: Seq<Event<W>>,
    steps: Seq<StepView<W>>,
    n: nat,
)
    requires
        crate::wal::worker_event::is_run(states, events, steps),
        states[0].well_formed(),
        n <= events.len(),
    ensures
        states[n as int].well_formed(),
    decreases n,
{
    if n > 0 {
        let i = n - 1;
        law_run_is_well_formed(states, events, steps, i as nat);
        assert(events[i].enabled(states[i]));
        law_step_is_well_formed(states[i], events[i], steps[i]);
    }
}

} // verus!
