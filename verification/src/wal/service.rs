//! That requests other than writes are served, and batches reported, once.
//!
//! A request to remove files is served by asking for the removal of each of
//! them, a request for statistics by answering it. In every run without a
//! failure, what the worker has done, followed by what it still has to do, is
//! what it was asked to do, in that order.

use crate::errors::Error;
use crate::types::WalTypes;
use crate::wal::batch_metrics::BatchTiming;
use crate::wal::flush_request::WorkerRequest;
use crate::wal::queued_write::QueuedWrite;
use crate::wal::vectored_write::WriteCursor;
use crate::wal::worker_event::Event;
use crate::wal::worker_model::StepView;
use crate::wal::worker_model::WorkerView;
use crate::wal::worker_step::Action;
use crate::wal::worker_step::Effect;
use crate::wal::worker_step::Stage;
use vstd::prelude::*;

verus! {

/// Something that a request other than a write asks for.
pub enum Duty<W: WalTypes> {
    /// Remove a file.
    Remove { path: String },
    /// Answer a request for flush statistics.
    Reply { tx: W::StatReply },
}

/// The removal of some files, in order.
pub open spec fn removals_of<W: WalTypes>(paths: Seq<String>) -> Seq<Duty<W>> {
    Seq::new(paths.len(), |i: int| Duty::Remove { path: paths[i] })
}

/// What a request asks for.
pub open spec fn duties_of<W: WalTypes>(req: WorkerRequest<W>) -> Seq<Duty<W>> {
    match req {
        WorkerRequest::RemoveChunks { chunk_paths } => removals_of(chunk_paths@),
        WorkerRequest::GetFlushStat { tx } => seq![Duty::Reply { tx }],
        _ => Seq::empty(),
    }
}

/// What an event asks for.
pub open spec fn duties_by<W: WalTypes>(event: Event<W>) -> Seq<Duty<W>> {
    match event {
        Event::Received { request, .. } => duties_of(request.req),
        Event::ReceivedMore { request, .. } => duties_of(request.req),
        _ => Seq::empty(),
    }
}

/// What effects do of it.
pub open spec fn replies<W: WalTypes>(effects: Seq<Effect<W>>) -> Seq<Duty<W>>
    decreases effects.len(),
{
    if effects.len() == 0 {
        Seq::empty()
    } else {
        let before = replies(effects.drop_last());
        match effects.last() {
            Effect::ReplyStat { tx } => before.push(Duty::Reply { tx }),
            _ => before,
        }
    }
}

/// What a step does of it: it answers, and asks for a removal.
pub open spec fn served<W: WalTypes>(step: StepView<W>) -> Seq<Duty<W>> {
    match step.action {
        Action::Remove { path } => replies(step.effects).push(Duty::Remove { path }),
        _ => replies(step.effects),
    }
}

/// What the worker has taken on and not done yet.
pub open spec fn owed<W: WalTypes>(v: WorkerView<W>) -> Seq<Duty<W>> {
    let left = if v.stage is Remove {
        removals_of(v.removals)
    } else {
        Seq::empty()
    };
    match v.pending {
        Some(request) => left + duties_of(request.req),
        None => left,
    }
}

/// Whether the worker has a batch.
pub open spec fn has_batch(stage: Stage) -> bool {
    match stage {
        Stage::Collect | Stage::Write => true,
        Stage::Sync { roll, .. } => !roll,
        _ => false,
    }
}

/// How many files effects report as persisted.
pub open spec fn persisted_count<W: WalTypes>(effects: Seq<Effect<W>>) -> nat
    decreases effects.len(),
{
    if effects.len() == 0 {
        0
    } else {
        persisted_count(effects.drop_last()) + if effects.last() is Persisted {
            1nat
        } else {
            0nat
        }
    }
}

/// How many batches effects add to the metrics.
pub open spec fn recorded_count<W: WalTypes>(effects: Seq<Effect<W>>) -> nat
    decreases effects.len(),
{
    if effects.len() == 0 {
        0
    } else {
        recorded_count(effects.drop_last()) + if effects.last() is RecordBatch {
            1nat
        } else {
            0nat
        }
    }
}

/// None of the effects answers, reports or records anything.
spec fn quiet<W: WalTypes>(effects: Seq<Effect<W>>) -> bool {
    forall|i: int|
        0 <= i < effects.len() ==> !((#[trigger] effects[i]) is ReplyStat) && !(effects[i] is
            Persisted) && !(effects[i] is RecordBatch)
}

proof fn lemma_quiet<W: WalTypes>(given: Seq<Effect<W>>, more: Seq<Effect<W>>)
    requires
        quiet(more),
    ensures
        replies(given + more) == replies(given),
        persisted_count(given + more) == persisted_count(given),
        recorded_count(given + more) == recorded_count(given),
    decreases more.len(),
{
    if more.len() == 0 {
        assert(given + more =~= given);
    } else {
        assert(quiet(more.drop_last())) by {
            assert forall|i: int| 0 <= i < more.len() - 1 implies !((#[trigger] more.drop_last()[i])
                is ReplyStat) && !(more.drop_last()[i] is Persisted) && !(more.drop_last()[i] is
                RecordBatch) by {
                assert(more.drop_last()[i] == more[i]);
            }
        }
        lemma_quiet(given, more.drop_last());
        assert((given + more).drop_last() =~= given + more.drop_last());
        assert((given + more).last() == more[more.len() - 1]);
    }
}

proof fn lemma_pushed<W: WalTypes>(given: Seq<Effect<W>>, effect: Effect<W>)
    ensures
        replies(given.push(effect)) == match effect {
            Effect::ReplyStat { tx } => replies(given).push(Duty::Reply { tx }),
            _ => replies(given),
        },
        persisted_count(given.push(effect)) == persisted_count(given) + if effect is Persisted {
            1nat
        } else {
            0nat
        },
        recorded_count(given.push(effect)) == recorded_count(given) + if effect is RecordBatch {
            1nat
        } else {
            0nat
        },
{
    assert(given.push(effect).drop_last() =~= given);
}

/// What a step does and still has to do is `duties`; it reports and records
/// as often as said. It goes on without a failure.
spec fn serves<W: WalTypes>(
    step: StepView<W>,
    duties: Seq<Duty<W>>,
    persisted: nat,
    recorded: nat,
) -> bool {
    &&& served(step) + owed(step.state) == duties
    &&& persisted_count(step.effects) == persisted
    &&& recorded_count(step.effects) == recorded
    &&& !(step.state.stage is Drain)
}

proof fn serve_remove_next<W: WalTypes>(v: WorkerView<W>, effects: Seq<Effect<W>>)
    requires
        v.pending is None,
    ensures
        serves(
            v.remove_next(effects),
            replies(effects) + removals_of(v.removals),
            persisted_count(effects),
            recorded_count(effects),
        ),
        !has_batch(v.remove_next(effects).state.stage),
{
    let step = v.remove_next(effects);
    let all = removals_of::<W>(v.removals);
    if v.removals.len() == 0 {
        lemma_pushed(effects, Effect::Complete { seq: v.seq });
        assert(served(step) + owed(step.state) =~= replies(effects) + all);
    } else {
        assert(replies(effects).push(Duty::Remove { path: v.removals[0] }) + removals_of::<W>(
            v.removals.drop_first(),
        ) =~= replies(effects) + all);
    }
}

proof fn serve_control<W: WalTypes>(
    v: WorkerView<W>,
    req: WorkerRequest<W>,
    effects: Seq<Effect<W>>,
)
    requires
        !(req is Write),
        v.pending is None,
    ensures
        serves(
            v.control(req, effects),
            replies(effects) + duties_of(req),
            persisted_count(effects),
            recorded_count(effects),
        ),
        !has_batch(v.control(req, effects).state.stage),
{
    let step = v.control(req, effects);
    match req {
        WorkerRequest::Roll(_) => {
            assert(served(step) + owed(step.state) =~= replies(effects) + duties_of(req));
        },
        WorkerRequest::RemoveChunks { chunk_paths } => {
            serve_remove_next(WorkerView { removals: chunk_paths@, ..v }, effects);
        },
        WorkerRequest::GetFlushStat { tx } => {
            lemma_pushed(effects, Effect::ReplyStat { tx });
            lemma_pushed(effects.push(Effect::ReplyStat { tx }), Effect::Complete { seq: v.seq });
            assert(served(step) + owed(step.state) =~= replies(effects) + duties_of(req));
        },
        WorkerRequest::Write(_) => {},
    }
}

proof fn lemma_notifications_quiet<W: WalTypes>(
    writes: Seq<QueuedWrite<W>>,
    result: Result<(), Error>,
)
    ensures
        quiet(crate::wal::worker_model::notifications(writes, result)),
    decreases writes.len(),
{
    if writes.len() > 0 {
        lemma_notifications_quiet(writes.drop_last(), result);
    }
}

/// What the request that ended the batch asks for.
spec fn pending_duties<W: WalTypes>(v: WorkerView<W>) -> Seq<Duty<W>> {
    match v.pending {
        Some(request) => duties_of(request.req),
        None => Seq::empty(),
    }
}

proof fn serve_finish_batch<W: WalTypes>(
    v: WorkerView<W>,
    result: Result<(), Error>,
    effects: Seq<Effect<W>>,
    now: u64,
)
    requires
        v.pending is Some ==> !(v.pending->0.req is Write),
    ensures
        serves(
            v.finish_batch(result, effects, now),
            replies(effects) + pending_duties(v),
            persisted_count(effects),
            recorded_count(effects) + 1,
        ),
        !has_batch(v.finish_batch(result, effects, now).state.stage),
{
    let metrics = crate::wal::batch_metrics::batch_metrics(v.writes, v.timing, now);
    let recorded = effects.push(Effect::RecordBatch { metrics });
    let notifications = crate::wal::worker_model::notifications(v.writes, result);
    let told = recorded + notifications;
    let step = v.finish_batch(result, effects, now);
    lemma_pushed(effects, Effect::RecordBatch { metrics });
    lemma_notifications_quiet(v.writes, result);
    lemma_quiet(recorded, notifications);
    match v.pending {
        None => {
            lemma_pushed(told, Effect::Complete { seq: v.max_seq });
            assert(served(step) + owed(step.state) =~= replies(effects) + pending_duties(v));
        },
        Some(request) => {
            let seq = if request.seq > v.max_seq {
                request.seq
            } else {
                v.max_seq
            };
            serve_control(WorkerView { seq, ..v.idle() }, request.req, told);
        },
    }
}

/// What comes of a batch that is not to be waited with any more: it is still
/// the worker's, or it is recorded.
spec fn serves_batch<W: WalTypes>(v: WorkerView<W>, step: StepView<W>) -> bool {
    serves(
        step,
        pending_duties(v),
        0,
        if has_batch(step.state.stage) {
            0
        } else {
            1
        },
    )
}

proof fn serve_written<W: WalTypes>(v: WorkerView<W>, now: u64)
    requires
        v.pending is Some ==> !(v.pending->0.req is Write),
    ensures
        serves_batch(v, v.written(now)),
{
    let released = crate::wal::worker_model::releases(v.writes);
    let write_time = crate::wal::batch_metrics::elapsed(v.timing.batch_started, now);
    let timing = BatchTiming { write_time, sync_started: now, ..v.timing };
    let step = v.written(now);
    lemma_quiet(Seq::empty(), released);
    assert(Seq::empty() + released =~= released);
    assert(replies(released) =~= Seq::empty());
    assert(Seq::<Duty<W>>::empty() + pending_duties(v) =~= pending_duties(v));
    if crate::wal::worker_model::needs_sync(v.writes) {
        assert(served(step) + owed(step.state) =~= pending_duties(v));
    } else {
        serve_finish_batch(WorkerView { timing, ..v }, Ok(()), released, now);
    }
}

proof fn serve_start_write<W: WalTypes>(v: WorkerView<W>, now: u64)
    requires
        v.pending is Some ==> !(v.pending->0.req is Write),
    ensures
        serves_batch(v, v.start_write(now)),
{
    let group_wait = crate::wal::batch_metrics::elapsed(v.timing.collect_started, now);
    let timing = BatchTiming { group_wait, batch_started: now, ..v.timing };
    let first = crate::wal::vectored_write::first_with_data(v.writes, 0);
    let cursor = WriteCursor { index: first as usize, offset: 0 };
    let step = v.start_write(now);
    if first == v.writes.len() {
        serve_written(WorkerView { timing, cursor, ..v }, now);
    } else {
        assert(served(step) + owed(step.state) =~= pending_duties(v));
    }
}

proof fn serve_collect_more<W: WalTypes>(v: WorkerView<W>, now: u64)
    requires
        v.pending is Some ==> !(v.pending->0.req is Write),
    ensures
        serves_batch(v, v.collect_more(now)),
{
    let step = v.collect_more(now);
    serve_start_write(v, now);
    if step.action is ReceiveTimeout {
        assert(served(step) + owed(step.state) =~= pending_duties(v));
    }
}

/// What an event does, unless the worker fails.
spec fn event_serves<W: WalTypes>(v: WorkerView<W>, event: Event<W>, step: StepView<W>) -> bool {
    let reported = event matches Event::Synced { result: Ok(_), .. } && v.stage->last;
    let in_batch = has_batch(v.stage) || (event matches Event::Received { request, .. }
        && request.req is Write);
    serves(
        step,
        owed(v) + duties_by(event),
        if reported {
            1
        } else {
            0
        },
        if in_batch && !has_batch(step.state.stage) {
            1
        } else {
            0
        },
    )
}

proof fn serve_request<W: WalTypes>(v: WorkerView<W>, event: Event<W>, step: StepView<W>)
    requires
        v.well_formed(),
        event.enabled(v),
        event.leads_to(v, step),
        event is Received || event is ReceivedMore || event is ReceivedNone,
    ensures
        event_serves(v, event, step),
{
    reveal(Event::leads_to);
    assert(Seq::<Duty<W>>::empty() + duties_by(event) =~= duties_by(event));
    match event {
        Event::Received { request, now } => {
            assert(owed(v) =~= Seq::empty());
            if request.req is Write {
                serve_collect_more(v.begun(request, now), now);
                assert(duties_by(event) =~= Seq::empty());
            } else {
                serve_control(WorkerView { seq: request.seq, ..v }, request.req, Seq::empty());
            }
        },
        Event::ReceivedMore { request, now } => {
            assert(owed(v) =~= Seq::empty());
            serve_collect_more(v.pushed(request), now);
            assert(pending_duties(v.pushed(request)) =~= duties_by(event));
        },
        Event::ReceivedNone { now } => {
            assert(owed(v) =~= pending_duties(v));
            serve_start_write(v, now);
        },
        _ => {},
    }
}

proof fn serve_wrote<W: WalTypes>(v: WorkerView<W>, event: Event<W>, step: StepView<W>)
    requires
        v.well_formed(),
        event.enabled(v),
        event.leads_to(v, step),
        event is Wrote,
        !(step.state.stage is Drain),
    ensures
        event_serves(v, event, step),
{
    reveal(Event::leads_to);
    assert(owed(v) =~= pending_duties(v));
    assert(owed(v) + duties_by(event) =~= owed(v));
    assert(Seq::<Duty<W>>::empty() + owed(v) =~= owed(v));
    if let Event::Wrote { result: Ok(n), now } = event {
        if n > 0 {
            let (index, offset) = v.cursor.advanced(v.writes, n as nat);
            let cursor = WriteCursor { index: index as usize, offset: offset as usize };
            let state = WorkerView { cursor, ..v };
            if index == v.writes.len() {
                serve_written(state, now);
            } else {
                assert(served(step) + owed(step.state) =~= owed(v));
            }
        }
    }
}

proof fn serve_synced<W: WalTypes>(v: WorkerView<W>, event: Event<W>, step: StepView<W>)
    requires
        v.well_formed(),
        event.enabled(v),
        event.leads_to(v, step),
        event is Synced,
        !(step.state.stage is Drain),
    ensures
        event_serves(v, event, step),
{
    reveal(Event::leads_to);
    assert(owed(v) =~= pending_duties(v));
    assert(owed(v) + duties_by(event) =~= owed(v));
    assert(Seq::<Duty<W>>::empty() + owed(v) =~= owed(v));
    let persisted = v.persisted();
    assert(Seq::<Effect<W>>::empty().push(persisted) =~= seq![persisted]);
    lemma_pushed(Seq::empty(), persisted);
    if let Event::Synced { result, now } = event {
        let sync_time = Some(crate::wal::batch_metrics::elapsed(v.timing.sync_started, now));
        let timing = BatchTiming { sync_time, ..v.timing };
        match result {
            Ok(_) => {
                if v.stage->last && !v.stage->roll {
                    let state = WorkerView { timing, ..v.last_synced() };
                    serve_finish_batch(state, Ok(()), seq![persisted], now);
                } else {
                    assert(served(step) + owed(step.state) =~= owed(v));
                }
            },
            Err(error) => {
                serve_finish_batch(WorkerView { timing, ..v }, Err(error), Seq::empty(), now);
            },
        }
    }
}

proof fn serve_other<W: WalTypes>(v: WorkerView<W>, event: Event<W>, step: StepView<W>)
    requires
        v.well_formed(),
        event.enabled(v),
        event.leads_to(v, step),
        event is Closed || event is Removed || event is Created || event is DirSynced
            || event is LeadingWritten,
        !(step.state.stage is Drain),
    ensures
        event_serves(v, event, step),
{
    reveal(Event::leads_to);
    assert(owed(v) + duties_by(event) =~= owed(v));
    assert(Seq::<Duty<W>>::empty() + owed(v) =~= owed(v));
    match event {
        Event::Removed { .. } => {
            serve_remove_next(v, Seq::empty());
        },
        Event::LeadingWritten { .. } => {
            let publish = Effect::<W>::Publish { slot: v.roll->0.file_slot, file: v.new_file->0 };
            assert(Seq::<Effect<W>>::empty().push(publish) =~= seq![publish]);
            lemma_pushed(Seq::empty(), publish);
            lemma_pushed(seq![publish], Effect::Complete { seq: v.seq });
            assert(served(step) + owed(step.state) =~= owed(v));
        },
        Event::Closed => {
            let stopped = Effect::<W>::Stopped { failure: None };
            assert(Seq::<Effect<W>>::empty().push(stopped) =~= seq![stopped]);
            lemma_pushed(Seq::empty(), stopped);
            assert(served(step) + owed(step.state) =~= owed(v));
        },
        _ => {
            assert(served(step) + owed(step.state) =~= owed(v));
        },
    }
}

/// Unless the worker fails, what a step does and what is left to do is what
/// was left before and what the event asks for, in order. When the last of
/// the files has been synced, that is reported, once, and at no other time.
/// When the worker is done with a batch, the batch is recorded, once, and at
/// no other time.
pub proof fn law_step_serves<W: WalTypes>(v: WorkerView<W>, event: Event<W>, step: StepView<W>)
    requires
        v.well_formed(),
        event.enabled(v),
        event.leads_to(v, step),
        !(v.stage is Drain),
        !(step.state.stage is Drain),
    ensures
        served(step) + owed(step.state) == owed(v) + duties_by(event),
        persisted_count(step.effects) == if event matches Event::Synced { result: Ok(_), .. }
            && v.stage->last {
            1nat
        } else {
            0nat
        },
        recorded_count(step.effects) == if (has_batch(v.stage) || (event matches Event::Received {
            request,
            ..
        } && request.req is Write)) && !has_batch(step.state.stage) {
            1nat
        } else {
            0nat
        },
{
    match event {
        Event::Received { .. } | Event::ReceivedMore { .. } | Event::ReceivedNone { .. } => {
            serve_request(v, event, step);
        },
        Event::Wrote { .. } => {
            serve_wrote(v, event, step);
        },
        Event::Synced { .. } => {
            serve_synced(v, event, step);
        },
        Event::Drained { .. } => {},
        _ => {
            serve_other(v, event, step);
        },
    }
}

/// What the first `n` steps of a run do.
pub open spec fn served_until<W: WalTypes>(steps: Seq<StepView<W>>, n: nat) -> Seq<Duty<W>>
    decreases n,
{
    if n == 0 {
        Seq::empty()
    } else {
        served_until(steps, (n - 1) as nat) + served(steps[n - 1])
    }
}

/// What the first `n` events of a run ask for.
pub open spec fn asked_until<W: WalTypes>(events: Seq<Event<W>>, n: nat) -> Seq<Duty<W>>
    decreases n,
{
    if n == 0 {
        Seq::empty()
    } else {
        asked_until(events, (n - 1) as nat) + duties_by(events[n - 1])
    }
}

/// In every run without a failure, the removals that the worker asks for and
/// the answers that it gives are those that the requests ask for, all of them
/// and no others, in order: when it waits for the next request, it has asked
/// for every removal and given every answer.
pub proof fn law_run_serves<W: WalTypes>(
    states: Seq<WorkerView<W>>,
    events: Seq<Event<W>>,
    steps: Seq<StepView<W>>,
    n: nat,
)
    requires
        crate::wal::worker_event::is_run(states, events, steps),
        states[0].well_formed(),
        states[0].stage is Receive,
        n <= events.len(),
        forall|i: int| 0 <= i <= n ==> !((#[trigger] states[i]).stage is Drain),
    ensures
        served_until(steps, n) + owed(states[n as int]) == asked_until(events, n),
        states[n as int].stage is Receive ==> served_until(steps, n) == asked_until(events, n),
    decreases n,
{
    crate::wal::step_shape::law_run_is_well_formed(states, events, steps, n);
    if n == 0 {
        assert(owed(states[0]) =~= Seq::empty());
    } else {
        let i = n - 1;
        law_run_serves(states, events, steps, i as nat);
        crate::wal::step_shape::law_run_is_well_formed(states, events, steps, i as nat);
        assert(events[i].enabled(states[i]));
        law_step_serves(states[i], events[i], steps[i]);
        let before = served_until(steps, i as nat);
        assert(before + served(steps[i]) + owed(states[n as int]) =~= before + (served(steps[i])
            + owed(states[n as int])));
        assert(before + (owed(states[i]) + duties_by(events[i])) =~= before + owed(states[i])
            + duties_by(events[i]));
    }
    if states[n as int].stage is Receive {
        assert(owed(states[n as int]) =~= Seq::empty());
        assert(served_until(steps, n) + Seq::<Duty<W>>::empty() =~= served_until(steps, n));
    }
}

/// The removals that are asked for between taking a request to remove files
/// and waiting for the next request are those of its paths, in order, if
/// nothing else is asked for in between.
pub proof fn law_every_path_is_removed<W: WalTypes>(
    states: Seq<WorkerView<W>>,
    events: Seq<Event<W>>,
    steps: Seq<StepView<W>>,
    chunk_paths: Vec<String>,
    n: nat,
)
    requires
        crate::wal::worker_event::is_run(states, events, steps),
        states[0].well_formed(),
        states[0].stage is Receive,
        0 < n <= events.len(),
        events[0] matches Event::Received { request, .. } && request.req
            == (WorkerRequest::<W>::RemoveChunks { chunk_paths }),
        forall|i: int| 0 < i < n ==> (#[trigger] events[i]) is Removed,
        forall|i: int| 0 <= i <= n ==> !((#[trigger] states[i]).stage is Drain),
        states[n as int].stage is Receive,
    ensures
        served_until(steps, n) == Seq::new(
            chunk_paths@.len(),
            |i: int| Duty::<W>::Remove { path: chunk_paths@[i] },
        ),
{
    law_run_serves(states, events, steps, n);
    lemma_asked_once(events, n);
    assert(asked_until(events, n) =~= Seq::new(
        chunk_paths@.len(),
        |i: int| Duty::<W>::Remove { path: chunk_paths@[i] },
    ));
}

proof fn lemma_asked_once<W: WalTypes>(events: Seq<Event<W>>, n: nat)
    requires
        0 < n <= events.len(),
        forall|i: int| 0 < i < n ==> (#[trigger] events[i]) is Removed,
    ensures
        asked_until(events, n) == duties_by(events[0]),
    decreases n,
{
    if n == 1 {
        reveal_with_fuel(asked_until, 2);
        assert(asked_until(events, 1) =~= duties_by(events[0]));
    } else {
        lemma_asked_once(events, (n - 1) as nat);
        assert(events[n - 1] is Removed);
        assert(asked_until(events, n) =~= duties_by(events[0]));
    }
}

/// After a file has been reported as persisted, the offset kept for it is the
/// one that was reported, so statistics show it.
pub proof fn law_reported_offset_is_kept<W: WalTypes>(
    v: WorkerView<W>,
    event: Event<W>,
    step: StepView<W>,
    i: int,
)
    requires
        v.well_formed(),
        event.enabled(v),
        event.leads_to(v, step),
        event.batch(v).len() <= usize::MAX,
        0 <= i < step.effects.len(),
        step.effects[i] is Persisted,
    ensures
        step.state.files.len() == 1,
        step.state.files[0].sync_id == step.effects[i]->call.persisted.synced_offset,
        step.state.files[0].f == step.effects[i]->call.persisted.file,
        step.state.files[0].starting_offset == step.effects[i]->call.persisted.starting_offset,
{
    crate::wal::step_shape::lemma_files_follow(v, event, step);
    assert(crate::wal::step_shape::reports_persisted(step.effects));
    lemma_synced_goes_on(v, event, step);
    law_step_serves(v, event, step);
    lemma_one_report(step.effects, i);
    assert(v.files.len() == 1);
}

proof fn lemma_synced_goes_on<W: WalTypes>(v: WorkerView<W>, event: Event<W>, step: StepView<W>)
    requires
        v.well_formed(),
        event.enabled(v),
        event.leads_to(v, step),
        event matches Event::Synced { result: Ok(_), .. },
    ensures
        !(step.state.stage is Drain),
{
    reveal(Event::leads_to);
    if let Event::Synced { now, .. } = event {
        let sync_time = Some(crate::wal::batch_metrics::elapsed(v.timing.sync_started, now));
        let timing = BatchTiming { sync_time, ..v.timing };
        let state = WorkerView { timing, ..v.last_synced() };
        serve_finish_batch(state, Ok(()), seq![v.persisted()], now);
    }
}

proof fn lemma_one_report<W: WalTypes>(effects: Seq<Effect<W>>, i: int)
    requires
        0 <= i < effects.len(),
        effects[i] is Persisted,
        effects[0] is Persisted,
        persisted_count(effects) <= 1,
    ensures
        i == 0,
    decreases effects.len(),
{
    if i == effects.len() - 1 {
        if i > 0 {
            lemma_counted(effects.drop_last(), 0);
        }
    } else {
        lemma_one_report(effects.drop_last(), i);
    }
}

proof fn lemma_counted<W: WalTypes>(effects: Seq<Effect<W>>, i: int)
    requires
        0 <= i < effects.len(),
        effects[i] is Persisted,
    ensures
        persisted_count(effects) >= 1,
    decreases effects.len(),
{
    if i < effects.len() - 1 {
        lemma_counted(effects.drop_last(), i);
    }
}

/// Once a file has been reported as persisted, statistics show that file alone,
/// where its chunk starts, and the offset that was reported.
pub proof fn law_statistics_show_the_reported_offset<W: WalTypes>(
    v: WorkerView<W>,
    event: Event<W>,
    step: StepView<W>,
    i: int,
    inos: Seq<u64>,
)
    requires
        v.well_formed(),
        event.enabled(v),
        event.leads_to(v, step),
        event.batch(v).len() <= usize::MAX,
        0 <= i < step.effects.len(),
        step.effects[i] is Persisted,
    ensures
        ({
            let stats = step.state.stats(inos);
            let persisted = step.effects[i]->call.persisted;
            &&& stats.len() == 1
            &&& stats[0].starting_offset == persisted.starting_offset
            &&& stats[0].sync_id == persisted.synced_offset
            &&& stats[0].ino == inos[0]
        }),
{
    law_reported_offset_is_kept(v, event, step, i);
}

/// Statistics show every file that may have unsynced data, oldest first: where
/// its chunk starts, how far it has been synced, and its inode number.
pub proof fn law_statistics_show_every_file<W: WalTypes>(
    v: WorkerView<W>,
    inos: Seq<u64>,
    i: int,
)
    requires
        0 <= i < v.files.len(),
    ensures
        v.stats(inos).len() == v.files.len(),
        v.stats(inos)[i].starting_offset == v.files[i].starting_offset,
        v.stats(inos)[i].sync_id == v.files[i].sync_id,
        v.stats(inos)[i].ino == inos[i],
{
}

} // verus!
