//! That what is sent to the flush worker ends up in the chunk files.
//!
//! The bytes that requests bring are in the files' share of what was asked,
//! in the worker's hands, or in the queue, in the order they were sent. Once
//! everything has been dealt with, all of them are in the files.

use crate::errors::Error;
use crate::types::WalTypes;
use crate::wal::batch_metrics::BatchTiming;
use crate::wal::durability::FileState;
use crate::wal::flow::Flow;
use crate::wal::flow::Turn;
use crate::wal::flush_request::SeqRequest;
use crate::wal::flush_request::WorkerRequest;
use crate::wal::vectored_write::WriteCursor;
use crate::wal::worker_event::Event;
use crate::wal::worker_model::StepView;
use crate::wal::worker_model::WorkerView;
use crate::wal::worker_step::Effect;
use vstd::prelude::*;

verus! {

/// The bytes that a request adds to the log.
pub open spec fn content_of<W: WalTypes>(req: WorkerRequest<W>) -> Seq<u8> {
    match req {
        WorkerRequest::Write(write) => write.data@,
        WorkerRequest::Roll(roll) => roll.leading_bytes@,
        _ => Seq::empty(),
    }
}

/// The bytes that queued requests add to the log, in order.
pub open spec fn queue_content<W: WalTypes>(queue: Seq<SeqRequest<W>>) -> Seq<u8>
    decreases queue.len(),
{
    if queue.len() == 0 {
        Seq::empty()
    } else {
        queue_content(queue.drop_last()) + content_of(queue.last().req)
    }
}

/// The leading bytes of new chunks that the worker knows of and that no file
/// has been asked to hold yet.
pub open spec fn in_hand<W: WalTypes>(v: WorkerView<W>) -> Seq<u8> {
    let current = match v.roll {
        Some(roll) => roll.leading_bytes@,
        None => Seq::empty(),
    };
    match v.pending {
        Some(request) => current + content_of(request.req),
        None => current,
    }
}

/// What the files are asked to hold, one after the other.
pub open spec fn all_asked(disk: Seq<FileState>) -> Seq<u8>
    decreases disk.len(),
{
    if disk.len() == 0 {
        Seq::empty()
    } else {
        all_asked(disk.drop_last()) + disk.last().asked
    }
}

/// What the files hold, one after the other: the log.
pub open spec fn all_content(disk: Seq<FileState>) -> Seq<u8>
    decreases disk.len(),
{
    if disk.len() == 0 {
        Seq::empty()
    } else {
        all_content(disk.drop_last()) + disk.last().content
    }
}

/// The bytes that an event brings.
pub open spec fn content_by<W: WalTypes>(event: Event<W>) -> Seq<u8> {
    match event {
        Event::Received { request, .. } => content_of(request.req),
        Event::ReceivedMore { request, .. } => content_of(request.req),
        _ => Seq::empty(),
    }
}

/// If every file holds all that it is asked to hold, so do they together.
pub proof fn lemma_complete_files(disk: Seq<FileState>)
    requires
        forall|i: int| 0 <= i < disk.len() ==> (#[trigger] disk[i]).complete(),
    ensures
        all_content(disk) == all_asked(disk),
    decreases disk.len(),
{
    if disk.len() > 0 {
        assert forall|i: int| 0 <= i < disk.len() - 1 implies (#[trigger] disk.drop_last()[i])
            .complete() by {
            assert(disk[i].complete());
        }
        lemma_complete_files(disk.drop_last());
        assert(disk[disk.len() - 1].complete());
    }
}

/// What files are asked to hold depends on nothing else.
proof fn lemma_same_asked(a: Seq<FileState>, b: Seq<FileState>)
    requires
        a.len() == b.len(),
        forall|i: int| 0 <= i < a.len() ==> (#[trigger] a[i]).asked == b[i].asked,
    ensures
        all_asked(a) == all_asked(b),
    decreases a.len(),
{
    if a.len() > 0 {
        lemma_same_asked(a.drop_last(), b.drop_last());
    }
}

proof fn lemma_asked_of_last(disk: Seq<FileState>, last: FileState, more: Seq<u8>)
    requires
        disk.len() > 0,
        last.asked == disk.last().asked + more,
    ensures
        all_asked(disk.update(disk.len() - 1, last)) == all_asked(disk) + more,
{
    let after = disk.update(disk.len() - 1, last);
    assert(after.drop_last() =~= disk.drop_last());
    assert(all_asked(after) =~= all_asked(disk) + more);
}

proof fn hand_control<W: WalTypes>(
    v: WorkerView<W>,
    req: WorkerRequest<W>,
    effects: Seq<Effect<W>>,
)
    requires
        !(req is Write),
        v.roll is None,
        v.pending is None,
    ensures
        in_hand(v.control(req, effects).state) == content_of(req),
{
}

proof fn hand_finish_batch<W: WalTypes>(
    v: WorkerView<W>,
    result: Result<(), Error>,
    effects: Seq<Effect<W>>,
    now: u64,
)
    requires
        v.roll is None,
        v.pending is Some ==> !(v.pending->0.req is Write),
    ensures
        in_hand(v.finish_batch(result, effects, now).state) == in_hand(v),
{
    let metrics = crate::wal::batch_metrics::batch_metrics(v.writes, v.timing, now);
    let told = effects.push(Effect::RecordBatch { metrics })
        + crate::wal::worker_model::notifications(v.writes, result);
    if let Some(request) = v.pending {
        let seq = if request.seq > v.max_seq {
            request.seq
        } else {
            v.max_seq
        };
        hand_control(WorkerView { seq, ..v.idle() }, request.req, told);
        assert(Seq::<u8>::empty() + content_of(request.req) =~= content_of(request.req));
    }
}

proof fn hand_written<W: WalTypes>(v: WorkerView<W>, now: u64)
    requires
        v.roll is None,
        v.pending is Some ==> !(v.pending->0.req is Write),
    ensures
        in_hand(v.written(now).state) == in_hand(v),
{
    let released = crate::wal::worker_model::releases(v.writes);
    let write_time = crate::wal::batch_metrics::elapsed(v.timing.batch_started, now);
    let timing = BatchTiming { write_time, sync_started: now, ..v.timing };
    hand_finish_batch(WorkerView { timing, ..v }, Ok(()), released, now);
}

proof fn hand_start_write<W: WalTypes>(v: WorkerView<W>, now: u64)
    requires
        v.roll is None,
        v.pending is Some ==> !(v.pending->0.req is Write),
    ensures
        in_hand(v.start_write(now).state) == in_hand(v),
{
    let group_wait = crate::wal::batch_metrics::elapsed(v.timing.collect_started, now);
    let timing = BatchTiming { group_wait, batch_started: now, ..v.timing };
    let first = crate::wal::vectored_write::first_with_data(v.writes, 0);
    let cursor = WriteCursor { index: first as usize, offset: 0 };
    hand_written(WorkerView { timing, cursor, ..v }, now);
}

/// What was asked and what is in hand grow by what the request brings.
proof fn hand_request<W: WalTypes>(
    v: WorkerView<W>,
    event: Event<W>,
    step: StepView<W>,
    disk: Seq<FileState>,
)
    requires
        v.well_formed(),
        crate::wal::durability::tracks(v, disk),
        event is Received || event is ReceivedMore,
        event.enabled(v),
        event.leads_to(v, step),
    ensures
        all_asked(event.applied(v, disk)) + in_hand(step.state) == all_asked(disk) + in_hand(v)
            + content_by(event),
{
    reveal(Event::leads_to);
    let (request, now) = match event {
        Event::Received { request, now } => (request, now),
        Event::ReceivedMore { request, now } => (request, now),
        _ => vstd::pervasive::arbitrary(),
    };
    let cur = crate::wal::durability::current(v, disk);
    assert(in_hand(v) =~= Seq::empty());
    match request.req {
        WorkerRequest::Write(write) => {
            let last = FileState { asked: disk[cur].asked + write.data@, ..disk[cur] };
            lemma_asked_of_last(disk, last, write.data@);
            if event is Received {
                hand_start_write(v.begun(request, now), now);
            } else {
                hand_start_write(v.pushed(request), now);
            }
            assert(in_hand(step.state) =~= Seq::empty());
            assert(all_asked(event.applied(v, disk)) + Seq::<u8>::empty() =~= all_asked(disk)
                + Seq::<u8>::empty() + write.data@);
        },
        _ => {
            if event is Received {
                hand_control(WorkerView { seq: request.seq, ..v }, request.req, Seq::empty());
            } else {
                hand_start_write(v.pushed(request), now);
                assert(Seq::<u8>::empty() + content_of(request.req) =~= content_of(request.req));
            }
            assert(all_asked(disk) + Seq::<u8>::empty() + content_of(request.req)
                =~= all_asked(disk) + content_of(request.req));
        },
    }
}

/// Nothing changes in hand while a batch is written and synced.
proof fn hand_wrote<W: WalTypes>(
    v: WorkerView<W>,
    result: Result<usize, Error>,
    now: u64,
    step: StepView<W>,
)
    requires
        v.well_formed(),
        v.stage is Write,
        v.wrote(result, now, step),
        !(step.state.stage is Drain),
    ensures
        in_hand(step.state) == in_hand(v),
{
    if let Ok(n) = result {
        if n > 0 {
            let (index, offset) = v.cursor.advanced(v.writes, n as nat);
            let cursor = WriteCursor { index: index as usize, offset: offset as usize };
            hand_written(WorkerView { cursor, ..v }, now);
        }
    }
}

proof fn hand_synced<W: WalTypes>(v: WorkerView<W>, result: Result<(), Error>, now: u64)
    requires
        v.well_formed(),
        v.stage is Sync,
        !(v.synced(result, now).state.stage is Drain),
    ensures
        in_hand(v.synced(result, now).state) == in_hand(v),
{
    let sync_time = Some(crate::wal::batch_metrics::elapsed(v.timing.sync_started, now));
    let timing = BatchTiming { sync_time, ..v.timing };
    if !v.stage->roll {
        match result {
            Ok(_) => {
                let state = WorkerView { timing, ..v.last_synced() };
                hand_finish_batch(state, Ok(()), seq![v.persisted()], now);
            },
            Err(error) => {
                hand_finish_batch(WorkerView { timing, ..v }, Err(error), Seq::empty(), now);
            },
        }
    }
}

/// The leading bytes of a new chunk pass from the worker's hands to its file.
proof fn hand_leading_written<W: WalTypes>(
    v: WorkerView<W>,
    event: Event<W>,
    step: StepView<W>,
    disk: Seq<FileState>,
)
    requires
        v.well_formed(),
        crate::wal::durability::tracks(v, disk),
        event is LeadingWritten,
        event.enabled(v),
        event.leads_to(v, step),
        !(step.state.stage is Drain),
    ensures
        all_asked(event.applied(v, disk)) + in_hand(step.state) == all_asked(disk) + in_hand(v),
{
    reveal(Event::leads_to);
    let leading = v.roll->0.leading_bytes@;
    let cur = crate::wal::durability::current(v, disk);
    let last = event.applied(v, disk)[cur + 1];
    assert(disk.last().asked + leading =~= leading);
    lemma_asked_of_last(disk, last, leading);
    assert(in_hand(step.state) =~= Seq::empty());
    assert(all_asked(event.applied(v, disk)) + Seq::<u8>::empty() =~= all_asked(disk) + leading);
}

/// Unless the worker fails, an event adds to what was asked and what is in
/// hand exactly the bytes that it brings.
pub proof fn law_step_delivers<W: WalTypes>(
    v: WorkerView<W>,
    event: Event<W>,
    step: StepView<W>,
    disk: Seq<FileState>,
)
    requires
        v.well_formed(),
        crate::wal::durability::tracks(v, disk),
        event.enabled(v),
        event.leads_to(v, step),
        !(v.stage is Drain),
        !(step.state.stage is Drain),
    ensures
        all_asked(event.applied(v, disk)) + in_hand(step.state) == all_asked(disk) + in_hand(v)
            + content_by(event),
{
    let after = event.applied(v, disk);
    assert(all_asked(disk) + in_hand(v) + Seq::<u8>::empty() =~= all_asked(disk) + in_hand(v));
    match event {
        Event::Received { .. } => {
            hand_request(v, event, step, disk);
        },
        Event::ReceivedMore { .. } => {
            hand_request(v, event, step, disk);
        },
        Event::Closed => {
            reveal(Event::leads_to);
        },
        Event::ReceivedNone { now } => {
            reveal(Event::leads_to);
            hand_start_write(v, now);
        },
        Event::Wrote { result, now } => {
            reveal(Event::leads_to);
            hand_wrote(v, result, now, step);
            lemma_same_asked(after, disk);
        },
        Event::Synced { result, now } => {
            reveal(Event::leads_to);
            hand_synced(v, result, now);
            lemma_same_asked(after, disk);
        },
        Event::Removed { result } => {
            reveal(Event::leads_to);
        },
        Event::Created { result } => {
            reveal(Event::leads_to);
            assert(after.drop_last() =~= disk);
            assert(all_asked(disk) + Seq::<u8>::empty() =~= all_asked(disk));
        },
        Event::DirSynced { result } => {
            reveal(Event::leads_to);
            lemma_same_asked(after, disk);
        },
        Event::LeadingWritten { .. } => {
            hand_leading_written(v, event, step, disk);
        },
        Event::Drained { .. } => {},
    }
}

proof fn lemma_queue_content_first<W: WalTypes>(queue: Seq<SeqRequest<W>>)
    requires
        queue.len() > 0,
    ensures
        queue_content(queue) == content_of(queue.first().req) + queue_content(
            queue.drop_first(),
        ),
    decreases queue.len(),
{
    if queue.len() > 1 {
        lemma_queue_content_first(queue.drop_last());
        assert(queue.drop_first().drop_last() =~= queue.drop_last().drop_first());
        assert(queue_content(queue) =~= content_of(queue.first().req) + queue_content(
            queue.drop_first(),
        ));
    } else {
        reveal_with_fuel(queue_content, 2);
        assert(queue.drop_first() =~= Seq::empty());
        assert(queue_content(queue) =~= content_of(queue.first().req) + Seq::<u8>::empty());
    }
}

/// The worker has failed.
pub open spec fn has_failed<W: WalTypes>(flow: Flow<W>) -> bool {
    flow.worker.stage is Drain || flow.state.failure is Some
}

/// Unless the worker has failed, `all` is what the files are asked to hold,
/// what the worker has in hand, and what is queued. When it has stopped, the
/// files hold what they are asked to hold.
pub open spec fn delivers<W: WalTypes>(
    flow: Flow<W>,
    disk: Seq<FileState>,
    all: Seq<u8>,
) -> bool {
    &&& crate::wal::durability::tracks(flow.worker, disk)
    &&& has_failed(flow) || {
        &&& all_asked(disk) + in_hand(flow.worker) + queue_content(flow.queue) == all
        &&& flow.worker.stage is Stopped ==> forall|i: int|
            0 <= i < disk.len() ==> (#[trigger] disk[i]).complete()
    }
}

/// The files after a turn.
pub open spec fn turned<W: WalTypes>(
    turn: Turn<W>,
    before: Flow<W>,
    disk: Seq<FileState>,
) -> Seq<FileState> {
    match turn {
        Turn::Work { event, .. } => event.applied(before.worker, disk),
        _ => disk,
    }
}

/// The bytes that a turn sends.
pub open spec fn sent_by<W: WalTypes>(turn: Turn<W>) -> Seq<u8> {
    match turn {
        Turn::Send { req, .. } => content_of(req),
        _ => Seq::empty(),
    }
}

proof fn lemma_work_delivers<W: WalTypes>(
    before: Flow<W>,
    event: Event<W>,
    step: StepView<W>,
    after: Flow<W>,
    disk: Seq<FileState>,
    all: Seq<u8>,
)
    requires
        before.sound(),
        (Turn::Work { event, step }).leads(before, after),
        delivers(before, disk, all),
    ensures
        delivers(after, event.applied(before.worker, disk), all),
{
    let v = before.worker;
    let applied = event.applied(v, disk);
    crate::wal::durability::law_step_tracks(v, event, step, disk);
    crate::wal::step_shape::lemma_files_follow(v, event, step);
    if !has_failed(before) && !has_failed(after) {
        law_step_delivers(v, event, step, disk);
        if crate::wal::progress::takes_request(event) {
            lemma_queue_content_first(before.queue);
            assert(content_by(event) == content_of(before.queue.first().req));
        } else {
            assert(content_by(event) =~= Seq::<u8>::empty());
            assert(after.queue == before.queue);
            assert(Seq::<u8>::empty() + queue_content(after.queue) =~= queue_content(
                before.queue,
            ));
        }
        let asked = all_asked(disk) + in_hand(v);
        assert(asked + content_by(event) + queue_content(after.queue) =~= asked + (content_by(event)
            + queue_content(after.queue)));
        if after.worker.stage is Stopped {
            assert(event is Closed);
            assert(applied == disk);
            let cur = crate::wal::durability::current(v, disk);
            assert(cur == disk.len() - 1);
        }
    }
}

/// With every turn, what is asked, in hand and queued grows by what is sent.
pub proof fn law_turn_delivers<W: WalTypes>(
    turn: Turn<W>,
    before: Flow<W>,
    after: Flow<W>,
    disk: Seq<FileState>,
    all: Seq<u8>,
)
    requires
        before.sound(),
        turn.leads(before, after),
        delivers(before, disk, all),
    ensures
        delivers(after, turned(turn, before, disk), all + sent_by(turn)),
{
    assert(all + Seq::<u8>::empty() =~= all);
    match turn {
        Turn::Send { req, .. } => {
            assert(after.queue.drop_last() =~= before.queue);
            let asked = all_asked(disk) + in_hand(before.worker);
            assert(asked + (queue_content(before.queue) + content_of(req)) =~= asked
                + queue_content(before.queue) + content_of(req));
        },
        Turn::Close => {},
        Turn::Work { event, step } => {
            lemma_work_delivers(before, event, step, after, disk, all);
        },
        Turn::Perform => {
            if before.state.failure is Some {
                assert(!(before.due[0] is Stopped));
            }
        },
    }
}

/// The files after the first `n` turns.
pub open spec fn disk_after<W: WalTypes>(
    flows: Seq<Flow<W>>,
    turns: Seq<Turn<W>>,
    disk: Seq<FileState>,
    n: nat,
) -> Seq<FileState>
    decreases n,
{
    if n == 0 {
        disk
    } else {
        let i = n - 1;
        turned(turns[i], flows[i], disk_after(flows, turns, disk, i as nat))
    }
}

/// The bytes that the first `n` turns send, in order.
pub open spec fn sent_until<W: WalTypes>(turns: Seq<Turn<W>>, n: nat) -> Seq<u8>
    decreases n,
{
    if n == 0 {
        Seq::empty()
    } else {
        sent_until(turns, (n - 1) as nat) + sent_by(turns[n - 1])
    }
}

/// Over a whole history, what is asked, in hand and queued grows by what is
/// sent.
pub proof fn lemma_history_delivers<W: WalTypes>(
    flows: Seq<Flow<W>>,
    turns: Seq<Turn<W>>,
    disk: Seq<FileState>,
    all: Seq<u8>,
    n: nat,
)
    requires
        crate::wal::flow::is_history(flows, turns),
        flows[0].sound(),
        delivers(flows[0], disk, all),
        n <= turns.len(),
    ensures
        delivers(
            flows[n as int],
            disk_after(flows, turns, disk, n),
            all + sent_until(turns, n),
        ),
    decreases n,
{
    if n == 0 {
        assert(all + Seq::<u8>::empty() =~= all);
    } else {
        let i = n - 1;
        lemma_history_delivers(flows, turns, disk, all, i as nat);
        crate::wal::flow::law_history_is_sound(flows, turns, i as nat);
        assert(turns[i].leads(flows[i], flows[n as int]));
        law_turn_delivers(
            turns[i],
            flows[i],
            flows[n as int],
            disk_after(flows, turns, disk, i as nat),
            all + sent_until(turns, i as nat),
        );
        assert(all + sent_until(turns, i as nat) + sent_by(turns[i]) =~= all + (sent_until(
            turns,
            i as nat,
        ) + sent_by(turns[i])));
    }
}

/// Everything that is sent is written: however the sender and the worker take
/// turns, if the worker has not failed, then when everything has been dealt
/// with the log is what it was, followed by the bytes of all requests sent, in
/// the order they were sent.
pub proof fn law_everything_sent_is_written<W: WalTypes>(
    flows: Seq<Flow<W>>,
    turns: Seq<Turn<W>>,
    disk: Seq<FileState>,
    n: nat,
)
    requires
        crate::wal::flow::is_history(flows, turns),
        flows[0].sound(),
        flows[0].at_rest(),
        flows[0].worker.stage is Receive,
        crate::wal::durability::tracks(flows[0].worker, disk),
        n <= turns.len(),
        flows[n as int].at_rest(),
        flows[n as int].state.failure is None,
    ensures
        all_content(disk_after(flows, turns, disk, n)) == all_content(disk) + sent_until(
            turns,
            n,
        ),
{
    let first = flows[0];
    let last = flows[n as int];
    let files = disk_after(flows, turns, disk, n);
    assert(all_asked(disk) + in_hand(first.worker) + queue_content(first.queue) =~= all_asked(
        disk,
    ));
    lemma_complete_files(disk);
    lemma_history_delivers(flows, turns, disk, all_asked(disk), n);
    crate::wal::flow::law_history_is_sound(flows, turns, n);
    assert(all_asked(files) + in_hand(last.worker) + queue_content(last.queue) =~= all_asked(
        files,
    ));
    lemma_complete_files(files);
}

} // verus!
