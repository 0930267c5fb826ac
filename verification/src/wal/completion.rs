//! The order in which the flush worker completes requests.

use crate::errors::Error;
use crate::types::WalTypes;
use crate::wal::batch_metrics::BatchTiming;
use crate::wal::flush_request::SeqRequest;
use crate::wal::flush_request::WorkerRequest;
use crate::wal::queued_write::QueuedWrite;
use crate::wal::vectored_write::WriteCursor;
use crate::wal::worker_event::Event;
use crate::wal::worker_model::StepView;
use crate::wal::worker_model::WorkerView;
use crate::wal::worker_step::Effect;
use crate::wal::worker_step::Stage;
use std::sync::Arc;
use vstd::prelude::*;

verus! {

/// The highest sequence number among the requests that the worker has taken
/// and not completed is `latest`.
pub open spec fn working_on<W: WalTypes>(v: WorkerView<W>, latest: u64) -> bool {
    match v.stage {
        Stage::Collect | Stage::Write | Stage::Sync { roll: false, .. } => {
            match v.pending {
                Some(request) => v.max_seq <= request.seq && request.seq == latest,
                None => v.max_seq == latest,
            }
        },
        Stage::Receive | Stage::Drain | Stage::Stopped => true,
        _ => v.seq == latest,
    }
}

/// Effects report no sequence number but `seq`.
pub open spec fn reports_only<W: WalTypes>(effects: Seq<Effect<W>>, seq: u64) -> bool {
    forall|i: int|
        0 <= i < effects.len() && (#[trigger] effects[i]) is Complete ==> effects[i]->seq == seq
}

/// The sequence number of the latest request, once the event has happened.
pub open spec fn latest_after<W: WalTypes>(event: Event<W>, latest: u64) -> u64 {
    match event {
        Event::Received { request, .. } => request.seq,
        Event::ReceivedMore { request, .. } => request.seq,
        _ => latest,
    }
}

/// Effects report a sequence number.
pub open spec fn reports<W: WalTypes>(effects: Seq<Effect<W>>) -> bool {
    exists|i: int| 0 <= i < effects.len() && (#[trigger] effects[i]) is Complete
}

/// The step reports nothing but `latest`, reports it when nothing is left to
/// do and only then, and otherwise works on it.
pub open spec fn in_order<W: WalTypes>(step: StepView<W>, latest: u64) -> bool {
    &&& working_on(step.state, latest)
    &&& reports_only(step.effects, latest)
    &&& reports(step.effects) ==> step.action is Receive
    &&& step.action is Receive ==> {
        &&& step.state.stage is Receive
        &&& step.effects.len() > 0
        &&& step.effects.last() == (Effect::<W>::Complete { seq: latest })
    }
}

/// `latest` is the highest sequence number of the batch and the request that
/// ended it.
spec fn batch_ends_at<W: WalTypes>(v: WorkerView<W>, latest: u64) -> bool {
    match v.pending {
        Some(request) => {
            &&& v.max_seq <= request.seq
            &&& request.seq == latest
            &&& !(request.req is Write)
        },
        None => v.max_seq == latest,
    }
}

proof fn order_control<W: WalTypes>(
    v: WorkerView<W>,
    req: WorkerRequest<W>,
    effects: Seq<Effect<W>>,
    latest: u64,
)
    requires
        v.seq == latest,
        !reports(effects),
        !(req is Write),
    ensures
        in_order(v.control(req, effects), latest),
{
}

proof fn order_notifications<W: WalTypes>(writes: Seq<QueuedWrite<W>>, result: Result<(), Error>)
    ensures
        !reports(crate::wal::worker_model::notifications(writes, result)),
    decreases writes.len(),
{
    if writes.len() > 0 {
        order_notifications(writes.drop_last(), result);
    }
}

proof fn order_finish_batch<W: WalTypes>(
    v: WorkerView<W>,
    result: Result<(), Error>,
    effects: Seq<Effect<W>>,
    now: u64,
    latest: u64,
)
    requires
        batch_ends_at(v, latest),
        !reports(effects),
    ensures
        in_order(v.finish_batch(result, effects, now), latest),
{
    let metrics = crate::wal::batch_metrics::batch_metrics(v.writes, v.timing, now);
    let told = effects.push(Effect::RecordBatch { metrics })
        + crate::wal::worker_model::notifications(v.writes, result);
    order_notifications(v.writes, result);
    assert(!reports(told));
    if let Some(request) = v.pending {
        let seq = if request.seq > v.max_seq {
            request.seq
        } else {
            v.max_seq
        };
        order_control(WorkerView { seq, ..v.idle() }, request.req, told, latest);
    }
}

proof fn order_written<W: WalTypes>(v: WorkerView<W>, now: u64, latest: u64)
    requires
        batch_ends_at(v, latest),
    ensures
        in_order(v.written(now), latest),
{
    let released = crate::wal::worker_model::releases(v.writes);
    assert(!reports(released));
    let write_time = crate::wal::batch_metrics::elapsed(v.timing.batch_started, now);
    let timing = BatchTiming { write_time, sync_started: now, ..v.timing };
    order_finish_batch(WorkerView { timing, ..v }, Ok(()), released, now, latest);
}

proof fn order_start_write<W: WalTypes>(v: WorkerView<W>, now: u64, latest: u64)
    requires
        batch_ends_at(v, latest),
    ensures
        in_order(v.start_write(now), latest),
{
    let group_wait = crate::wal::batch_metrics::elapsed(v.timing.collect_started, now);
    let timing = BatchTiming { group_wait, batch_started: now, ..v.timing };
    let first = crate::wal::vectored_write::first_with_data(v.writes, 0);
    let cursor = WriteCursor { index: first as usize, offset: 0 };
    order_written(WorkerView { timing, cursor, ..v }, now, latest);
}

proof fn order_collect_more<W: WalTypes>(v: WorkerView<W>, now: u64, latest: u64)
    requires
        batch_ends_at(v, latest),
    ensures
        in_order(v.collect_more(now), latest),
{
    order_start_write(v, now, latest);
}

proof fn order_fail<W: WalTypes>(v: WorkerView<W>, error: Error, latest: u64)
    ensures
        in_order(v.fail(error, Seq::empty()), latest),
{
}

proof fn order_wrote<W: WalTypes>(
    v: WorkerView<W>,
    result: Result<usize, Error>,
    now: u64,
    step: StepView<W>,
    latest: u64,
)
    requires
        v.stage is Write,
        batch_ends_at(v, latest),
        v.wrote(result, now, step),
    ensures
        in_order(step, latest),
{
    match result {
        Ok(n) => {
            if n == 0 {
                let error = choose|error: Error|
                    {
                        &&& error.kind == std::io::ErrorKind::WriteZero
                        &&& error.message@ == "failed to write whole buffer"@
                        &&& step == #[trigger] v.fail(error, Seq::empty())
                    };
                order_fail(v, error, latest);
            } else {
                let (index, offset) = v.cursor.advanced(v.writes, n as nat);
                let cursor = WriteCursor { index: index as usize, offset: offset as usize };
                order_written(WorkerView { cursor, ..v }, now, latest);
            }
        },
        Err(error) => {
            order_fail(v, error, latest);
        },
    }
}

proof fn order_synced<W: WalTypes>(
    v: WorkerView<W>,
    result: Result<(), Error>,
    now: u64,
    latest: u64,
)
    requires
        v.well_formed(),
        v.stage is Sync,
        working_on(v, latest),
    ensures
        in_order(v.synced(result, now), latest),
{
    let sync_time = Some(crate::wal::batch_metrics::elapsed(v.timing.sync_started, now));
    let timing = BatchTiming { sync_time, ..v.timing };
    match result {
        Ok(_) => {
            if v.stage->last && !v.stage->roll {
                let state = WorkerView { timing, ..v.last_synced() };
                order_finish_batch(state, Ok(()), seq![v.persisted()], now, latest);
            }
        },
        Err(error) => {
            if v.stage->roll {
                order_fail(v, error, latest);
            } else {
                let state = WorkerView { timing, ..v };
                order_finish_batch(state, Err(error), Seq::empty(), now, latest);
            }
        },
    }
}

proof fn order_control_outcomes<W: WalTypes>(v: WorkerView<W>, latest: u64)
    requires
        v.well_formed(),
        working_on(v, latest),
    ensures
        forall|result: Result<(), Error>|
            v.stage is Remove ==> in_order(#[trigger] v.removed(result), latest),
        forall|result: Result<Arc<W::File>, Error>|
            v.stage is Create ==> in_order(#[trigger] v.created(result), latest),
        forall|result: Result<(), Error>|
            v.stage is SyncDir ==> in_order(#[trigger] v.dir_synced(result), latest),
        forall|result: Result<(), Error>|
            v.stage is WriteLeading ==> in_order(#[trigger] v.leading_written(result), latest),
        forall|request: Option<SeqRequest<W>>|
            v.stage is Drain ==> in_order(#[trigger] v.drained(request), latest),
{
}

/// Requests are completed in the order they were sent: as long as sequence
/// numbers increase, the worker reports no number but that of the latest
/// request it has taken, and reports it when nothing it has taken is left to
/// do, and only then.
pub proof fn law_step_completes_in_order<W: WalTypes>(
    v: WorkerView<W>,
    event: Event<W>,
    step: StepView<W>,
    latest: u64,
)
    requires
        v.well_formed(),
        event.enabled(v),
        event.leads_to(v, step),
        working_on(v, latest),
        latest <= latest_after(event, latest),
    ensures
        in_order(step, latest_after(event, latest)),
{
    match event {
        Event::Received { request, now } => {
            reveal(Event::leads_to);
            if request.req is Write {
                order_collect_more(v.begun(request, now), now, request.seq);
            } else {
                let state = WorkerView { seq: request.seq, ..v };
                order_control(state, request.req, Seq::empty(), request.seq);
            }
        },
        Event::Closed => {
            reveal(Event::leads_to);
        },
        Event::ReceivedMore { request, now } => {
            reveal(Event::leads_to);
            order_collect_more(v.pushed(request), now, request.seq);
        },
        Event::ReceivedNone { now } => {
            reveal(Event::leads_to);
            order_start_write(v, now, latest);
        },
        Event::Wrote { result, now } => {
            reveal(Event::leads_to);
            order_wrote(v, result, now, step, latest);
        },
        Event::Synced { result, now } => {
            reveal(Event::leads_to);
            order_synced(v, result, now, latest);
        },
        Event::Removed { .. } | Event::Created { .. } | Event::DirSynced { .. }
        | Event::LeadingWritten { .. } | Event::Drained { .. } => {
            reveal(Event::leads_to);
            order_control_outcomes(v, latest);
        },
    }
}

/// The sequence number of the latest request taken in the first `n` events of
/// a run; `first` is that of the latest one taken before.
pub open spec fn latest_until<W: WalTypes>(events: Seq<Event<W>>, first: u64, n: nat) -> u64
    decreases n,
{
    if n == 0 {
        first
    } else {
        latest_after(events[n - 1], latest_until(events, first, (n - 1) as nat))
    }
}

/// Requests arrive in the order of their sequence numbers.
pub open spec fn sent_in_order<W: WalTypes>(events: Seq<Event<W>>, first: u64) -> bool {
    forall|i: int|
        0 <= i < events.len() ==> latest_until(events, first, i as nat) <= latest_after(
            #[trigger] events[i],
            latest_until(events, first, i as nat),
        )
}

/// In every run whose requests arrive in the order of their sequence numbers,
/// each step reports no number but that of the latest request taken, and
/// reports it when nothing taken is left to do, and only then.
pub proof fn law_run_completes_in_order<W: WalTypes>(
    states: Seq<WorkerView<W>>,
    events: Seq<Event<W>>,
    steps: Seq<StepView<W>>,
    first: u64,
    n: nat,
)
    requires
        crate::wal::worker_event::is_run(states, events, steps),
        states[0].well_formed(),
        working_on(states[0], first),
        sent_in_order(events, first),
        n <= events.len(),
    ensures
        working_on(states[n as int], latest_until(events, first, n)),
        n > 0 ==> in_order(steps[n - 1], latest_until(events, first, n)),
    decreases n,
{
    if n > 0 {
        let i = n - 1;
        law_run_completes_in_order(states, events, steps, first, i as nat);
        crate::wal::step_shape::law_run_is_well_formed(states, events, steps, i as nat);
        assert(events[i].enabled(states[i]));
        law_step_completes_in_order(
            states[i],
            events[i],
            steps[i],
            latest_until(events, first, i as nat),
        );
    }
}

/// The number reported as completed never decreases.
pub proof fn law_completed_number_never_decreases<W: WalTypes>(
    states: Seq<WorkerView<W>>,
    events: Seq<Event<W>>,
    steps: Seq<StepView<W>>,
    first: u64,
    i: int,
    j: int,
    a: int,
    b: int,
)
    requires
        crate::wal::worker_event::is_run(states, events, steps),
        states[0].well_formed(),
        working_on(states[0], first),
        sent_in_order(events, first),
        0 <= i <= j < events.len(),
        0 <= a < steps[i].effects.len(),
        0 <= b < steps[j].effects.len(),
        steps[i].effects[a] is Complete,
        steps[j].effects[b] is Complete,
    ensures
        steps[i].effects[a]->seq <= steps[j].effects[b]->seq,
{
    law_run_completes_in_order(states, events, steps, first, (i + 1) as nat);
    law_run_completes_in_order(states, events, steps, first, (j + 1) as nat);
    lemma_latest_grows(events, first, i + 1, j + 1);
}

proof fn lemma_latest_grows<W: WalTypes>(events: Seq<Event<W>>, first: u64, i: int, j: int)
    requires
        sent_in_order(events, first),
        0 <= i <= j <= events.len(),
    ensures
        latest_until(events, first, i as nat) <= latest_until(events, first, j as nat),
    decreases j - i,
{
    if i < j {
        lemma_latest_grows(events, first, i, j - 1);
        assert(latest_until(events, first, (j - 1) as nat) <= latest_after(
            events[j - 1],
            latest_until(events, first, (j - 1) as nat),
        ));
    }
}

} // verus!
