//! What the flush worker guarantees about the requests it takes.
//!
//! Reserved bytes, file slots and callbacks come in with requests and are
//! given back with effects. As long as the worker does not fail, nothing is
//! given back twice and nothing is forgotten: what came in is what was given
//! back and what the worker still holds.
//!
//! When the worker fails, slots are still given back, each marked as failed.
//! The callbacks of the batch it was working on, and of the requests left in
//! its queue, are dropped without being told anything. Reserved bytes are
//! returned all at once when the stop is reported; see `wal::flow`.

use crate::errors::Error;
use crate::types::WalTypes;
use crate::wal::batch_metrics::BatchTiming;
use crate::wal::flush_request::SeqRequest;
use crate::wal::flush_request::WorkerRequest;
use crate::wal::queued_write::QueuedWrite;
use crate::wal::vectored_write::WriteCursor;
use crate::wal::worker_event::Event;
use crate::wal::worker_model::StepView;
use crate::wal::worker_model::WorkerView;
use crate::wal::worker_step::Effect;
use std::sync::Arc;
use vstd::prelude::*;

verus! {

/// Things that come in with requests and are given back with effects.
#[verifier::ext_equal]
pub struct Account<W: WalTypes> {
    /// Reserved bytes.
    pub bytes: nat,
    /// Slots of chunks without a file, in the order their requests were sent.
    pub slots: Seq<W::Slot>,
    /// Callbacks, in the order their requests were sent.
    pub callbacks: Seq<W::Callback>,
}

impl<W: WalTypes> Account<W> {
    /// Nothing.
    pub open spec fn nothing() -> Self {
        Account { bytes: 0, slots: Seq::empty(), callbacks: Seq::empty() }
    }

    /// Both together.
    pub open spec fn plus(self, other: Self) -> Self {
        Account {
            bytes: self.bytes + other.bytes,
            slots: self.slots + other.slots,
            callbacks: self.callbacks + other.callbacks,
        }
    }
}

/// What a request brings in.
pub open spec fn brought<W: WalTypes>(req: WorkerRequest<W>) -> Account<W> {
    match req {
        WorkerRequest::Write(write) => Account {
            bytes: write.data@.len(),
            slots: Seq::empty(),
            callbacks: match write.callback {
                Some(callback) => seq![callback],
                None => Seq::empty(),
            },
        },
        WorkerRequest::Roll(roll) => Account {
            slots: seq![roll.file_slot],
            ..Account::nothing()
        },
        _ => Account::nothing(),
    }
}

/// What an effect gives back.
pub open spec fn returned<W: WalTypes>(effect: Effect<W>) -> Account<W> {
    match effect {
        Effect::Release { bytes } => Account { bytes: bytes as nat, ..Account::nothing() },
        Effect::Notify { callback, .. } => Account {
            callbacks: seq![callback],
            ..Account::nothing()
        },
        Effect::Publish { slot, .. } => Account { slots: seq![slot], ..Account::nothing() },
        Effect::FailSlot { slot, .. } => Account { slots: seq![slot], ..Account::nothing() },
        _ => Account::nothing(),
    }
}

/// What effects give back together.
pub open spec fn returned_by<W: WalTypes>(effects: Seq<Effect<W>>) -> Account<W>
    decreases effects.len(),
{
    if effects.len() == 0 {
        Account::nothing()
    } else {
        returned_by(effects.drop_last()).plus(returned(effects.last()))
    }
}

/// The callbacks of write requests, in order.
pub open spec fn callbacks_of<W: WalTypes>(writes: Seq<QueuedWrite<W>>) -> Seq<W::Callback>
    decreases writes.len(),
{
    if writes.len() == 0 {
        Seq::empty()
    } else {
        let before = callbacks_of(writes.drop_last());
        match writes.last().write.callback {
            Some(callback) => before.push(callback),
            None => before,
        }
    }
}

/// What the worker holds: the bytes of a batch until it has been written, its
/// callbacks until it has been processed, and slots until they are settled.
pub open spec fn held<W: WalTypes>(v: WorkerView<W>) -> Account<W> {
    Account {
        bytes: if v.stage is Collect || v.stage is Write {
            crate::wal::batch_metrics::data_size(v.writes)
        } else {
            0
        },
        slots: v.open_slots(),
        callbacks: callbacks_of(v.writes),
    }
}

/// What an event brings in.
pub open spec fn brought_by<W: WalTypes>(event: Event<W>) -> Account<W> {
    match event {
        Event::Received { request, .. } => brought(request.req),
        Event::ReceivedMore { request, .. } => brought(request.req),
        Event::Drained { request: Some(request) } => brought(request.req),
        _ => Account::nothing(),
    }
}

/// Effects performed one after the other give back what each list gives back.
proof fn lemma_returned_by_concat<W: WalTypes>(a: Seq<Effect<W>>, b: Seq<Effect<W>>)
    ensures
        returned_by(a + b) == returned_by(a).plus(returned_by(b)),
    decreases b.len(),
{
    if b.len() == 0 {
        assert(a + b =~= a);
        assert(returned_by(a).plus(Account::nothing()) =~= returned_by(a));
    } else {
        lemma_returned_by_concat(a, b.drop_last());
        assert((a + b).drop_last() =~= a + b.drop_last());
        assert(returned_by(a).plus(returned_by(b.drop_last())).plus(returned(b.last()))
            =~= returned_by(a).plus(returned_by(b.drop_last()).plus(returned(b.last()))));
    }
}

proof fn lemma_returned_by_push<W: WalTypes>(a: Seq<Effect<W>>, e: Effect<W>)
    ensures
        returned_by(a.push(e)) == returned_by(a).plus(returned(e)),
{
    assert(a.push(e).drop_last() =~= a);
}

/// Telling the callbacks gives back exactly the callbacks.
proof fn lemma_notifications<W: WalTypes>(writes: Seq<QueuedWrite<W>>, result: Result<(), Error>)
    ensures
        returned_by(crate::wal::worker_model::notifications(writes, result)) == (Account::<W> {
            callbacks: callbacks_of(writes),
            ..Account::nothing()
        }),
    decreases writes.len(),
{
    if writes.len() > 0 {
        lemma_notifications(writes.drop_last(), result);
        if let Some(callback) = writes.last().write.callback {
            lemma_returned_by_push(
                crate::wal::worker_model::notifications(writes.drop_last(), result),
                Effect::Notify { callback, result },
            );
        }
    }
}

/// Releasing a batch gives back exactly its bytes.
proof fn lemma_releases<W: WalTypes>(writes: Seq<QueuedWrite<W>>)
    ensures
        returned_by(crate::wal::worker_model::releases(writes)) == (Account::<W> {
            bytes: crate::wal::batch_metrics::data_size(writes),
            ..Account::nothing()
        }),
    decreases writes.len(),
{
    let all = crate::wal::worker_model::releases(writes);
    if writes.len() > 0 {
        lemma_releases(writes.drop_last());
        assert(all.drop_last() =~= crate::wal::worker_model::releases(writes.drop_last()));
        assert(writes.last().write.data.len() == writes.last().write.data@.len());
    }
}

/// Marking slots as failed gives back exactly the slots.
proof fn lemma_failed_slots<W: WalTypes>(slots: Seq<W::Slot>, error: Error)
    ensures
        returned_by(
            Seq::new(slots.len(), |i: int| Effect::<W>::FailSlot { slot: slots[i], error }),
        ) == (Account::<W> { slots, ..Account::nothing() }),
    decreases slots.len(),
{
    let all = Seq::new(slots.len(), |i: int| Effect::<W>::FailSlot { slot: slots[i], error });
    if slots.len() > 0 {
        let before = slots.drop_last();
        lemma_failed_slots::<W>(before, error);
        assert(all.drop_last() =~= Seq::new(
            before.len(),
            |i: int| Effect::<W>::FailSlot { slot: before[i], error },
        ));
        assert(before + seq![slots.last()] =~= slots);
    }
}

/// What effects give back, together with what is held after them.
spec fn settled<W: WalTypes>(step: StepView<W>) -> Account<W> {
    returned_by(step.effects).plus(held(step.state))
}

/// What a batch owes: its bytes, if they have not been returned yet, its
/// callbacks, and the slot of the request that ended it.
spec fn owed<W: WalTypes>(v: WorkerView<W>, bytes: nat) -> Account<W> {
    Account { bytes, slots: v.open_slots(), callbacks: callbacks_of(v.writes) }
}

proof fn lemma_complete<W: WalTypes>(v: WorkerView<W>, effects: Seq<Effect<W>>)
    requires
        v.roll is None,
    ensures
        settled(v.complete(effects)) == returned_by(effects),
        !(v.complete(effects).state.stage is Drain),
{
    lemma_returned_by_push(effects, Effect::Complete { seq: v.seq });
    assert(returned_by(effects).plus(Account::nothing()) =~= returned_by(effects));
    assert(held(v.complete(effects).state) =~= Account::nothing());
}

proof fn lemma_control<W: WalTypes>(
    v: WorkerView<W>,
    req: WorkerRequest<W>,
    effects: Seq<Effect<W>>,
)
    requires
        !(req is Write),
        v.roll is None,
        v.pending is None,
        v.writes.len() == 0,
    ensures
        settled(v.control(req, effects)) == returned_by(effects).plus(brought(req)),
        !(v.control(req, effects).state.stage is Drain),
{
    assert(returned_by(effects).plus(Account::nothing()) =~= returned_by(effects));
    match req {
        WorkerRequest::Roll(_) => {
            assert(held(v.control(req, effects).state) =~= brought(req));
        },
        WorkerRequest::RemoveChunks { chunk_paths } => {
            lemma_complete(WorkerView { removals: chunk_paths@, ..v }, effects);
            if chunk_paths@.len() > 0 {
                assert(held(v.control(req, effects).state) =~= Account::nothing());
            }
        },
        WorkerRequest::GetFlushStat { tx } => {
            lemma_returned_by_push(effects, Effect::ReplyStat { tx });
            lemma_complete(v, effects.push(Effect::ReplyStat { tx }));
        },
        WorkerRequest::Write(_) => {},
    }
}

proof fn lemma_finish_batch<W: WalTypes>(
    v: WorkerView<W>,
    result: Result<(), Error>,
    effects: Seq<Effect<W>>,
    now: u64,
)
    requires
        v.roll is None,
        v.pending is Some ==> !(v.pending->0.req is Write),
    ensures
        settled(v.finish_batch(result, effects, now)) == returned_by(effects).plus(owed(v, 0)),
        !(v.finish_batch(result, effects, now).state.stage is Drain),
{
    let metrics = crate::wal::batch_metrics::batch_metrics(v.writes, v.timing, now);
    let recorded = effects.push(Effect::RecordBatch { metrics });
    let notifications = crate::wal::worker_model::notifications(v.writes, result);
    lemma_returned_by_push(effects, Effect::RecordBatch { metrics });
    lemma_notifications(v.writes, result);
    lemma_returned_by_concat(recorded, notifications);
    let told = recorded + notifications;
    match v.pending {
        None => {
            lemma_complete(WorkerView { seq: v.max_seq, ..v }, told);
            assert(returned_by(told) =~= returned_by(effects).plus(owed(v, 0)));
        },
        Some(request) => {
            let seq = if request.seq > v.max_seq {
                request.seq
            } else {
                v.max_seq
            };
            lemma_control(WorkerView { seq, ..v.idle() }, request.req, told);
            assert(brought(request.req).slots =~= v.open_slots());
            assert(returned_by(told).plus(brought(request.req)) =~= returned_by(effects).plus(
                owed(v, 0),
            ));
        },
    }
}

proof fn lemma_written<W: WalTypes>(v: WorkerView<W>, now: u64)
    requires
        v.roll is None,
        v.pending is Some ==> !(v.pending->0.req is Write),
    ensures
        settled(v.written(now)) == owed(v, crate::wal::batch_metrics::data_size(v.writes)),
        !(v.written(now).state.stage is Drain),
{
    let released = crate::wal::worker_model::releases(v.writes);
    let bytes = crate::wal::batch_metrics::data_size(v.writes);
    let write_time = crate::wal::batch_metrics::elapsed(v.timing.batch_started, now);
    let timing = BatchTiming {
        write_time,
        sync_started: now,
        ..v.timing
    };
    lemma_releases(v.writes);
    lemma_finish_batch(WorkerView { timing, ..v }, Ok(()), released, now);
    assert(returned_by(released).plus(owed(v, 0)) =~= owed(v, bytes));
}

proof fn lemma_start_write<W: WalTypes>(v: WorkerView<W>, now: u64)
    requires
        v.roll is None,
        v.pending is Some ==> !(v.pending->0.req is Write),
    ensures
        settled(v.start_write(now)) == owed(v, crate::wal::batch_metrics::data_size(v.writes)),
        !(v.start_write(now).state.stage is Drain),
{
    let group_wait = crate::wal::batch_metrics::elapsed(v.timing.collect_started, now);
    let timing = BatchTiming {
        group_wait,
        batch_started: now,
        ..v.timing
    };
    let first = crate::wal::vectored_write::first_with_data(v.writes, 0);
    let cursor = WriteCursor { index: first as usize, offset: 0 };
    lemma_written(WorkerView { timing, cursor, ..v }, now);
    assert(Account::nothing().plus(
        owed(v, crate::wal::batch_metrics::data_size(v.writes)),
    ) =~= owed(v, crate::wal::batch_metrics::data_size(v.writes)));
}

proof fn lemma_collect_more<W: WalTypes>(v: WorkerView<W>, now: u64)
    requires
        v.roll is None,
        v.pending is Some ==> !(v.pending->0.req is Write),
    ensures
        settled(v.collect_more(now)) == owed(v, crate::wal::batch_metrics::data_size(v.writes)),
        !(v.collect_more(now).state.stage is Drain),
{
    lemma_start_write(v, now);
    assert(Account::nothing().plus(
        owed(v, crate::wal::batch_metrics::data_size(v.writes)),
    ) =~= owed(v, crate::wal::batch_metrics::data_size(v.writes)));
}

/// The worker has given up: it says so, after settling every slot it held.
spec fn failed<W: WalTypes>(v: WorkerView<W>, step: StepView<W>) -> bool {
    &&& step.state.stage is Drain
    &&& step.state.failure is Some
    &&& returned_by(step.effects).slots == held(v).slots
    &&& returned_by(step.effects).bytes == 0
    &&& step.effects.len() > 0
    &&& step.effects.last() == (Effect::<W>::Stopped { failure: step.state.failure })
}

proof fn lemma_fail<W: WalTypes>(v: WorkerView<W>, error: Error)
    ensures
        failed(v, v.fail(error, Seq::empty())),
{
    let slots = v.open_slots();
    let failed = Seq::new(slots.len(), |i: int| Effect::<W>::FailSlot { slot: slots[i], error });
    lemma_failed_slots::<W>(slots, error);
    assert(Seq::<Effect<W>>::empty() + failed =~= failed);
    lemma_returned_by_push(failed, Effect::Stopped { failure: Some(error) });
    assert(slots + Seq::<W::Slot>::empty() =~= slots);
}

proof fn lemma_received<W: WalTypes>(v: WorkerView<W>, request: SeqRequest<W>, now: u64)
    requires
        v.well_formed(),
        v.stage is Receive || v.stage is Collect,
    ensures
        ({
            let step = if v.stage is Receive {
                v.received(request, now)
            } else {
                v.received_more(request, now)
            };
            &&& settled(step) == held(v).plus(brought(request.req))
            &&& !(step.state.stage is Drain)
        }),
{
    let pushed = v.pushed(request);
    let total = crate::wal::batch_metrics::data_size(pushed.writes);
    if request.req is Write || v.stage is Collect {
        let sum = held(v).plus(brought(request.req));
        if let WorkerRequest::Write(_) = request.req {
            assert(pushed.writes.drop_last() =~= v.writes);
            assert(crate::wal::batch_metrics::data_size(pushed.writes)
                == crate::wal::batch_metrics::data_size(v.writes)
                + pushed.writes.last().write.data@.len());
        }
        assert(total == sum.bytes);
        assert(pushed.open_slots() =~= sum.slots);
        assert(callbacks_of(pushed.writes) =~= sum.callbacks);
        assert(owed(pushed, total) =~= sum);
    }
    if v.stage is Collect {
        lemma_collect_more(pushed, now);
    } else if request.req is Write {
        lemma_collect_more(v.begun(request, now), now);
    } else {
        lemma_control(WorkerView { seq: request.seq, ..v }, request.req, Seq::empty());
        assert(held(v) =~= Account::nothing());
    }
}

proof fn lemma_synced<W: WalTypes>(v: WorkerView<W>, result: Result<(), Error>, now: u64)
    requires
        v.well_formed(),
        v.stage is Sync,
    ensures
        if v.synced(result, now).state.stage is Drain {
            failed(v, v.synced(result, now))
        } else {
            settled(v.synced(result, now)) == held(v)
        },
{
    let persisted = seq![v.persisted()];
    assert(persisted =~= Seq::empty().push(v.persisted()));
    lemma_returned_by_push(Seq::empty(), v.persisted());
    assert(returned_by(persisted) =~= Account::nothing());
    assert(Account::nothing().plus(held(v)) =~= held(v));
    assert(owed(v, 0) =~= held(v));
    let sync_time = Some(crate::wal::batch_metrics::elapsed(v.timing.sync_started, now));
    let timing = BatchTiming { sync_time, ..v.timing };
    match result {
        Ok(_) => {
            if v.stage->roll || !v.stage->last {
                assert(held(v.synced(result, now).state) =~= held(v));
            } else {
                let state = WorkerView { timing, ..v.last_synced() };
                lemma_finish_batch(state, Ok(()), persisted, now);
                assert(owed(state, 0) =~= owed(v, 0));
            }
        },
        Err(error) => {
            if v.stage->roll {
                lemma_fail(v, error);
            } else {
                let state = WorkerView { timing, ..v };
                lemma_finish_batch(state, Err(error), Seq::empty(), now);
                assert(owed(state, 0) =~= owed(v, 0));
            }
        },
    }
}

proof fn lemma_wrote<W: WalTypes>(
    v: WorkerView<W>,
    result: Result<usize, Error>,
    now: u64,
    step: StepView<W>,
)
    requires
        v.well_formed(),
        v.stage is Write,
        v.wrote(result, now, step),
    ensures
        if step.state.stage is Drain {
            failed(v, step)
        } else {
            settled(step) == held(v)
        },
{
    assert(Account::nothing().plus(held(v)) =~= held(v));
    match result {
        Ok(n) => {
            if n == 0 {
                let error = choose|error: Error|
                    {
                        &&& error.kind == std::io::ErrorKind::WriteZero
                        &&& error.message@ == "failed to write whole buffer"@
                        &&& step == #[trigger] v.fail(error, Seq::empty())
                    };
                lemma_fail(v, error);
            } else {
                let (index, offset) = v.cursor.advanced(v.writes, n as nat);
                let cursor = WriteCursor { index: index as usize, offset: offset as usize };
                lemma_written(WorkerView { cursor, ..v }, now);
            }
        },
        Err(error) => {
            lemma_fail(v, error);
        },
    }
}

proof fn lemma_closed<W: WalTypes>(v: WorkerView<W>)
    requires
        v.well_formed(),
        v.stage is Receive,
    ensures
        settled(v.closed()) == held(v),
{
    let stopped = Effect::<W>::Stopped { failure: None };
    lemma_returned_by_push(Seq::empty(), stopped);
    assert(Seq::empty().push(stopped) =~= seq![stopped]);
    assert(Account::nothing().plus(held(v)) =~= held(v));
    assert(returned_by(seq![stopped]) =~= Account::nothing());
}

proof fn lemma_removed<W: WalTypes>(v: WorkerView<W>, result: Result<(), Error>)
    requires
        v.well_formed(),
        v.stage is Remove,
    ensures
        match result {
            Ok(_) => settled(v.removed(result)) == held(v) && !(v.removed(
                result,
            ).state.stage is Drain),
            Err(_) => failed(v, v.removed(result)),
        },
{
    match result {
        Ok(_) => {
            lemma_complete(v, Seq::empty());
            assert(held(v) =~= Account::nothing());
            if v.removals.len() > 0 {
                assert(Account::nothing().plus(held(v)) =~= held(v));
            }
        },
        Err(error) => {
            lemma_fail(v, error);
        },
    }
}

proof fn lemma_created<W: WalTypes>(v: WorkerView<W>, result: Result<Arc<W::File>, Error>)
    requires
        v.well_formed(),
        v.stage is Create,
    ensures
        match result {
            Ok(_) => settled(v.created(result)) == held(v) && !(v.created(
                result,
            ).state.stage is Drain),
            Err(_) => failed(v, v.created(result)),
        },
{
    match result {
        Ok(_) => {
            assert(Account::nothing().plus(held(v)) =~= held(v));
        },
        Err(error) => {
            lemma_fail(v, error);
        },
    }
}

proof fn lemma_dir_synced<W: WalTypes>(v: WorkerView<W>, result: Result<(), Error>)
    requires
        v.well_formed(),
        v.stage is SyncDir,
    ensures
        match result {
            Ok(_) => settled(v.dir_synced(result)) == held(v) && !(v.dir_synced(
                result,
            ).state.stage is Drain),
            Err(_) => failed(v, v.dir_synced(result)),
        },
{
    match result {
        Ok(_) => {
            assert(Account::nothing().plus(held(v)) =~= held(v));
        },
        Err(error) => {
            lemma_fail(v, error);
        },
    }
}

proof fn lemma_leading_written<W: WalTypes>(v: WorkerView<W>, result: Result<(), Error>)
    requires
        v.well_formed(),
        v.stage is WriteLeading,
    ensures
        match result {
            Ok(_) => settled(v.leading_written(result)) == held(v) && !(v.leading_written(
                result,
            ).state.stage is Drain),
            Err(_) => failed(v, v.leading_written(result)),
        },
{
    match result {
        Ok(_) => {
            let publish = Effect::<W>::Publish { slot: v.roll->0.file_slot, file: v.new_file->0 };
            lemma_returned_by_push(Seq::empty(), publish);
            assert(Seq::empty().push(publish) =~= seq![publish]);
            lemma_returned_by_push(seq![publish], Effect::Complete { seq: v.seq });
            assert(settled(v.leading_written(result)) =~= held(v));
        },
        Err(error) => {
            lemma_fail(v, error);
        },
    }
}

proof fn lemma_drained<W: WalTypes>(v: WorkerView<W>, request: Option<SeqRequest<W>>)
    requires
        v.well_formed(),
        v.stage is Drain,
    ensures
        ({
            let step = v.drained(request);
            &&& returned_by(step.effects).slots == match request {
                Some(request) => brought(request.req).slots,
                None => Seq::empty(),
            }
            &&& returned_by(step.effects).bytes == 0
        }),
{
    if let Some(SeqRequest { req: WorkerRequest::Roll(roll), .. }) = request {
        let effect = Effect::<W>::FailSlot { slot: roll.file_slot, error: v.failure->0 };
        lemma_returned_by_push(Seq::empty(), effect);
        assert(Seq::empty().push(effect) =~= seq![effect]);
        assert(returned_by(seq![effect]).slots =~= seq![roll.file_slot]);
    }
}

/// Whatever happens, what came in is given back or held, or the worker fails
/// and settles the slots.
proof fn lemma_step<W: WalTypes>(v: WorkerView<W>, event: Event<W>, step: StepView<W>)
    requires
        v.well_formed(),
        event.enabled(v),
        event.leads_to(v, step),
    ensures
        if v.stage is Drain {
            &&& returned_by(step.effects).slots == brought_by(event).slots
            &&& returned_by(step.effects).bytes == 0
            &&& step.state.failure == v.failure
        } else if step.state.stage is Drain {
            &&& failed(v, step)
            &&& brought_by(event) == Account::<W>::nothing()
        } else {
            settled(step) == held(v).plus(brought_by(event))
        },
{
    assert(held(v).plus(Account::nothing()) =~= held(v));
    match event {
        Event::Received { request, now } => {
            reveal(Event::leads_to);
            lemma_received(v, request, now);
        },
        Event::Closed => {
            reveal(Event::leads_to);
            lemma_closed(v);
        },
        Event::ReceivedMore { request, now } => {
            reveal(Event::leads_to);
            lemma_received(v, request, now);
        },
        Event::ReceivedNone { now } => {
            reveal(Event::leads_to);
            lemma_start_write(v, now);
        },
        Event::Wrote { result, now } => {
            reveal(Event::leads_to);
            lemma_wrote(v, result, now, step);
        },
        Event::Synced { result, now } => {
            reveal(Event::leads_to);
            lemma_synced(v, result, now);
        },
        Event::Removed { result } => {
            reveal(Event::leads_to);
            lemma_removed(v, result);
        },
        Event::Created { result } => {
            reveal(Event::leads_to);
            lemma_created(v, result);
        },
        Event::DirSynced { result } => {
            reveal(Event::leads_to);
            lemma_dir_synced(v, result);
        },
        Event::LeadingWritten { result, .. } => {
            reveal(Event::leads_to);
            lemma_leading_written(v, result);
        },
        Event::Drained { request } => {
            reveal(Event::leads_to);
            lemma_drained(v, request);
        },
    }
}

/// While the worker does not fail, what came in with requests is exactly what
/// it has given back and what it still holds: every reserved byte is returned
/// once, every callback is told one outcome, in the order of the requests,
/// and every new chunk's slot is settled.
pub proof fn law_step_accounts<W: WalTypes>(v: WorkerView<W>, event: Event<W>, step: StepView<W>)
    requires
        v.well_formed(),
        event.enabled(v),
        event.leads_to(v, step),
        !(step.state.stage is Drain),
        !(v.stage is Drain),
    ensures
        returned_by(step.effects).plus(held(step.state)) == held(v).plus(brought_by(event)),
{
    lemma_step(v, event, step);
}

/// Even when the worker fails, and while it drains its queue, no slot is
/// forgotten: a chunk whose file will never be created is marked as failed,
/// so nobody waits for it forever. Bytes are returned all at once when the
/// stop is reported, not one by one; callbacks are told nothing.
pub proof fn law_failure_settles_slots<W: WalTypes>(
    v: WorkerView<W>,
    event: Event<W>,
    step: StepView<W>,
)
    requires
        v.well_formed(),
        event.enabled(v),
        event.leads_to(v, step),
        v.stage is Drain || step.state.stage is Drain,
    ensures
        returned_by(step.effects).slots == held(v).slots + brought_by(event).slots,
        returned_by(step.effects).bytes == 0,
        step.state.failure is Some,
        !(v.stage is Drain) ==> step.effects.len() > 0 && step.effects.last() == (
        Effect::<W>::Stopped { failure: step.state.failure }),
{
    lemma_step(v, event, step);
    assert(held(v).slots + Seq::<W::Slot>::empty() =~= held(v).slots);
    if v.stage is Drain {
        assert(Seq::<W::Slot>::empty() + brought_by(event).slots =~= brought_by(event).slots);
        assert(held(v).slots =~= Seq::<W::Slot>::empty());
    }
}

/// The effects of the first `n` steps of a run, in order.
pub open spec fn effects_until<W: WalTypes>(steps: Seq<StepView<W>>, n: nat) -> Seq<Effect<W>>
    decreases n,
{
    if n == 0 {
        Seq::empty()
    } else {
        effects_until(steps, (n - 1) as nat) + steps[n - 1].effects
    }
}

/// What the first `n` events of a run bring in.
pub open spec fn brought_until<W: WalTypes>(events: Seq<Event<W>>, n: nat) -> Account<W>
    decreases n,
{
    if n == 0 {
        Account::nothing()
    } else {
        brought_until(events, (n - 1) as nat).plus(brought_by(events[n - 1]))
    }
}

/// In a run in which the worker does not fail, what has been given back,
/// together with what is held, is what the worker held at first and what came
/// in since, in that order.
pub proof fn law_run_accounts<W: WalTypes>(
    states: Seq<WorkerView<W>>,
    events: Seq<Event<W>>,
    steps: Seq<StepView<W>>,
    n: nat,
)
    requires
        crate::wal::worker_event::is_run(states, events, steps),
        states[0].well_formed(),
        n <= events.len(),
        forall|i: int| 0 <= i <= n ==> !((#[trigger] states[i]).stage is Drain),
    ensures
        returned_by(effects_until(steps, n)).plus(held(states[n as int])) == held(states[0]).plus(
            brought_until(events, n),
        ),
    decreases n,
{
    if n == 0 {
        assert(Account::nothing().plus(held(states[0])) =~= held(states[0]));
        assert(held(states[0]).plus(Account::nothing()) =~= held(states[0]));
    } else {
        let i = n - 1;
        law_run_accounts(states, events, steps, i as nat);
        crate::wal::step_shape::law_run_is_well_formed(states, events, steps, i as nat);
        assert(events[i].enabled(states[i]));
        law_step_accounts(states[i], events[i], steps[i]);
        let before = returned_by(effects_until(steps, i as nat));
        let now = returned_by(steps[i].effects);
        lemma_returned_by_concat(effects_until(steps, i as nat), steps[i].effects);
        lemma_plus_associates(before, now, held(states[n as int]));
        lemma_plus_associates(before, held(states[i]), brought_by(events[i]));
        lemma_plus_associates(
            held(states[0]),
            brought_until(events, i as nat),
            brought_by(events[i]),
        );
    }
}

proof fn lemma_plus_associates<W: WalTypes>(a: Account<W>, b: Account<W>, c: Account<W>)
    ensures
        a.plus(b).plus(c) == a.plus(b.plus(c)),
{
    assert(a.plus(b).plus(c) =~= a.plus(b.plus(c)));
}

} // verus!
