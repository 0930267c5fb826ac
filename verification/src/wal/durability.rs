//! What the flush worker guarantees about the chunk files.
//!
//! The guarantees are stated over the files' contents: what each holds, how
//! much of it is durable, and what the requests asked to be appended to it.
//! They hold for every sequence of requests and every outcome of the I/O
//! operations.

use crate::chunk::layout::Chunk;
use crate::errors::Error;
use crate::types::WalTypes;
use crate::wal::batch_metrics::BatchTiming;
use crate::wal::flush_request::SeqRequest;
use crate::wal::flush_request::WorkerRequest;
use crate::wal::queued_write::QueuedWrite;
use crate::wal::vectored_write::WriteCursor;
use crate::wal::worker_event::Event;
use crate::wal::worker_model::StepView;
use crate::wal::worker_model::WorkerView;
use crate::wal::worker_step::Effect;
use crate::wal::worker_step::Stage;
use std::sync::Arc;
use vstd::prelude::*;

verus! {

/// A chunk file.
#[verifier::ext_equal]
pub struct FileState {
    /// The bytes in the file.
    pub content: Seq<u8>,
    /// How many of them survive a crash.
    pub durable: nat,
    /// The bytes that the requests processed so far asked to be in the file.
    pub asked: Seq<u8>,
    /// Whether the file's name survives a crash.
    pub named: bool,
}

impl FileState {
    /// The file holds the beginning of what was asked.
    pub open spec fn valid(self) -> bool {
        &&& self.durable <= self.content.len()
        &&& self.content.is_prefix_of(self.asked)
    }

    /// The file holds all that was asked.
    pub open spec fn complete(self) -> bool {
        self.content == self.asked
    }

    /// The file holds all that was asked, and all of it survives a crash, under
    /// its name.
    pub open spec fn settled(self) -> bool {
        &&& self.complete()
        &&& self.durable == self.content.len()
        &&& self.named
    }

    /// A file that has just been created.
    pub open spec fn fresh() -> Self {
        FileState { content: Seq::empty(), durable: 0, asked: Seq::empty(), named: false }
    }

    /// The file once it has been synced.
    pub open spec fn synced(self) -> Self {
        FileState { durable: self.content.len(), ..self }
    }
}

impl<W: WalTypes> Event<W> {
    /// What the event does to the files: `disk` lists them in the order they
    /// were created. Files that are removed on request stay in the list.
    pub open spec fn applied(self, v: WorkerView<W>, disk: Seq<FileState>) -> Seq<FileState> {
        let cur = current(v, disk);
        match self {
            Event::Received { request, .. } | Event::ReceivedMore { request, .. } => {
                match request.req {
                    WorkerRequest::Write(write) => disk.update(
                        cur,
                        FileState { asked: disk[cur].asked + write.data@, ..disk[cur] },
                    ),
                    _ => disk,
                }
            },
            Event::Wrote { result: Ok(n), .. } => disk.update(
                cur,
                FileState {
                    content: disk[cur].content + v.cursor.offered(v.writes).take(n as int),
                    ..disk[cur]
                },
            ),
            Event::Synced { result: Ok(_), .. } => {
                let i = sync_position(v, disk);
                disk.update(i, disk[i].synced())
            },
            Event::Created { result: Ok(_) } => disk.push(FileState::fresh()),
            Event::DirSynced { result: Ok(_) } => disk.update(
                cur + 1,
                FileState { named: true, ..disk[cur + 1] },
            ),
            Event::LeadingWritten { kept, .. } => {
                disk.update(
                    cur + 1,
                    FileState {
                        content: v.leading().take(kept as int),
                        asked: v.roll->0.leading_bytes@,
                        ..disk[cur + 1]
                    },
                )
            },
            _ => disk,
        }
    }
}

/// The position of the file to which data is written: the last one, or the
/// one before it while the last one is being materialized.
pub open spec fn current<W: WalTypes>(v: WorkerView<W>, disk: Seq<FileState>) -> int {
    disk.len() - 1 - if v.new_file is Some {
        1int
    } else {
        0int
    }
}

/// The position of the file whose sync the worker waits for.
pub open spec fn sync_position<W: WalTypes>(v: WorkerView<W>, disk: Seq<FileState>) -> int {
    if v.stage->last {
        current(v, disk)
    } else {
        current(v, disk) - v.files.len()
    }
}

/// What holds of the files in every state: each holds the beginning of what
/// was asked, and all but the current one are complete and durable.
pub open spec fn orderly<W: WalTypes>(v: WorkerView<W>, disk: Seq<FileState>) -> bool {
    let cur = current(v, disk);
    &&& 0 < v.files.len() <= cur + 1
    &&& forall|i: int| 0 <= i < disk.len() ==> (#[trigger] disk[i]).valid()
    &&& forall|i: int| 0 <= i < cur ==> (#[trigger] disk[i]).settled()
}

/// How the files relate to the worker's state.
///
/// What is in the current file, followed by what the worker still holds, is
/// what the requests asked for.
pub open spec fn tracks<W: WalTypes>(v: WorkerView<W>, disk: Seq<FileState>) -> bool {
    let cur = current(v, disk);
    &&& orderly(v, disk)
    &&& v.stage is SyncDir || v.stage is WriteLeading <==> v.new_file is Some
    &&& v.stage is Drain || v.stage is Stopped || disk[cur].named
    &&& match v.stage {
        Stage::Receive | Stage::Remove => disk[cur].complete(),
        Stage::Sync { last, .. } => disk[cur].complete() && (last || v.files.len() <= cur),
        Stage::Collect => disk[cur].content + crate::wal::vectored_write::batch_data(v.writes)
            == disk[cur].asked,
        Stage::Write => disk[cur].content + v.cursor.remaining(v.writes) == disk[cur].asked,
        Stage::Create => disk[cur].settled(),
        Stage::SyncDir => disk[cur].settled() && disk[cur + 1] == FileState::fresh(),
        Stage::WriteLeading => disk[cur].settled() && disk[cur + 1] == (FileState {
            named: true,
            ..FileState::fresh()
        }),
        Stage::Drain | Stage::Stopped => true,
    }
}

/// A callback is told that its write request succeeded.
pub open spec fn acknowledges<W: WalTypes>(effects: Seq<Effect<W>>) -> bool {
    exists|i: int|
        0 <= i < effects.len() && (#[trigger] effects[i]) is Notify && effects[i]->result is Ok
}

/// A write request of the batch asks to be made durable.
pub open spec fn asks_for_sync<W: WalTypes>(batch: Seq<QueuedWrite<W>>) -> bool {
    exists|k: int| 0 <= k < batch.len() && (#[trigger] batch[k]).write.sync
}

/// A worker that starts on a log whose files are complete, have durable names
/// and, but for the last, durable contents, tracks them.
pub proof fn law_start_tracks<W: WalTypes>(v: WorkerView<W>, disk: Seq<FileState>)
    requires
        v.well_formed(),
        v.stage is Receive,
        v.new_file is None,
        v.files.len() <= disk.len(),
        forall|i: int|
            0 <= i < disk.len() ==> (#[trigger] disk[i]).valid() && disk[i].complete()
                && disk[i].named,
        forall|i: int| 0 <= i < disk.len() - 1 ==> (#[trigger] disk[i]).settled(),
    ensures
        tracks(v, disk),
{
}

/// The state between the phases of a round: all that was asked is in the
/// current file.
spec fn flushed<W: WalTypes>(v: WorkerView<W>, disk: Seq<FileState>) -> bool {
    &&& orderly(v, disk)
    &&& v.new_file is None
    &&& disk[current(v, disk)].complete()
    &&& disk[current(v, disk)].named
    &&& v.pending is Some ==> !(v.pending->0.req is Write)
}

proof fn lemma_control<W: WalTypes>(
    v: WorkerView<W>,
    req: WorkerRequest<W>,
    effects: Seq<Effect<W>>,
    disk: Seq<FileState>,
)
    requires
        flushed(v, disk),
        !(req is Write),
    ensures
        tracks(v.control(req, effects).state, disk),
        acknowledges(v.control(req, effects).effects) ==> acknowledges(effects),
{
}

proof fn lemma_notifications<W: WalTypes>(
    writes: Seq<QueuedWrite<W>>,
    result: Result<(), Error>,
)
    requires
        result is Err,
    ensures
        !acknowledges(crate::wal::worker_model::notifications(writes, result)),
    decreases writes.len(),
{
    if writes.len() > 0 {
        lemma_notifications(writes.drop_last(), result);
    }
}

proof fn lemma_finish_batch<W: WalTypes>(
    v: WorkerView<W>,
    result: Result<(), Error>,
    effects: Seq<Effect<W>>,
    now: u64,
    disk: Seq<FileState>,
)
    requires
        flushed(v, disk),
        !acknowledges(effects),
    ensures
        tracks(v.finish_batch(result, effects, now).state, disk),
        acknowledges(v.finish_batch(result, effects, now).effects) ==> result is Ok,
{
    let metrics = crate::wal::batch_metrics::batch_metrics(v.writes, v.timing, now);
    let told = effects.push(Effect::RecordBatch { metrics })
        + crate::wal::worker_model::notifications(v.writes, result);
    if result is Err {
        lemma_notifications(v.writes, result);
        assert(!acknowledges(told));
    }
    match v.pending {
        None => {},
        Some(request) => {
            let seq = if request.seq > v.max_seq {
                request.seq
            } else {
                v.max_seq
            };
            lemma_control(WorkerView { seq, ..v.idle() }, request.req, told, disk);
        },
    }
}

proof fn lemma_written<W: WalTypes>(v: WorkerView<W>, now: u64, disk: Seq<FileState>)
    requires
        flushed(v, disk),
    ensures
        tracks(v.written(now).state, disk),
        acknowledges(v.written(now).effects) ==> !crate::wal::worker_model::needs_sync(v.writes),
{
    let released = crate::wal::worker_model::releases(v.writes);
    assert(!acknowledges(released));
    if !crate::wal::worker_model::needs_sync(v.writes) {
        let write_time = crate::wal::batch_metrics::elapsed(v.timing.batch_started, now);
        let timing = BatchTiming {
            write_time,
            sync_started: now,
            ..v.timing
        };
        lemma_finish_batch(WorkerView { timing, ..v }, Ok(()), released, now, disk);
    }
}

proof fn lemma_start_write<W: WalTypes>(v: WorkerView<W>, now: u64, disk: Seq<FileState>)
    requires
        orderly(v, disk),
        v.new_file is None,
        v.writes.len() <= usize::MAX,
        v.pending is Some ==> !(v.pending->0.req is Write),
        ({
            let cur = disk[current(v, disk)];
            &&& cur.content + crate::wal::vectored_write::batch_data(v.writes) == cur.asked
            &&& cur.named
        }),
    ensures
        tracks(v.start_write(now).state, disk),
        acknowledges(v.start_write(now).effects) ==> {
            &&& disk[current(v, disk)].complete()
            &&& !crate::wal::worker_model::needs_sync(v.writes)
        },
{
    let group_wait = crate::wal::batch_metrics::elapsed(v.timing.collect_started, now);
    let timing = BatchTiming {
        group_wait,
        batch_started: now,
        ..v.timing
    };
    let first = crate::wal::vectored_write::first_with_data(v.writes, 0);
    let cursor = WriteCursor { index: first as usize, offset: 0 };
    let after = WorkerView { timing, cursor, ..v };
    crate::wal::vectored_write::lemma_first_with_data(v.writes, 0);
    let data = crate::wal::vectored_write::batch_data(v.writes);
    let cur = disk[current(v, disk)];
    if first == v.writes.len() {
        assert(cur.content + data =~= cur.content);
        lemma_written(after, now, disk);
    } else {
        assert(cursor.remaining(v.writes) =~= data);
    }
}

proof fn lemma_collect_more<W: WalTypes>(v: WorkerView<W>, now: u64, disk: Seq<FileState>)
    requires
        orderly(v, disk),
        v.new_file is None,
        v.writes.len() <= usize::MAX,
        v.pending is Some ==> !(v.pending->0.req is Write),
        ({
            let cur = disk[current(v, disk)];
            &&& cur.content + crate::wal::vectored_write::batch_data(v.writes) == cur.asked
            &&& cur.named
        }),
    ensures
        tracks(v.collect_more(now).state, disk),
        acknowledges(v.collect_more(now).effects) ==> {
            &&& disk[current(v, disk)].complete()
            &&& !crate::wal::worker_model::needs_sync(v.writes)
        },
{
    lemma_start_write(v, now, disk);
}

proof fn lemma_advanced<W: WalTypes>(v: WorkerView<W>, n: nat, now: u64, disk: Seq<FileState>)
    requires
        v.well_formed(),
        v.stage is Write,
        tracks(v, disk),
        v.writes.len() <= usize::MAX,
        n <= v.cursor.offered(v.writes).len(),
    ensures
        ({
            let cur = current(v, disk);
            let step = v.advanced(n, now);
            let content = disk[cur].content + v.cursor.offered(v.writes).take(n as int);
            let after = disk.update(cur, FileState { content, ..disk[cur] });
            &&& tracks(step.state, after)
            &&& acknowledges(step.effects) ==> {
                &&& after[cur].complete()
                &&& !crate::wal::worker_model::needs_sync(v.writes)
            }
        }),
{
    let cur = current(v, disk);
    let offered = v.cursor.offered(v.writes);
    let remaining = v.cursor.remaining(v.writes);
    let content = disk[cur].content + offered.take(n as int);
    let after = disk.update(cur, FileState { content, ..disk[cur] });
    crate::wal::vectored_write::law_advance_leaves_the_rest(v.cursor, v.writes, n);
    crate::wal::vectored_write::lemma_offered_is_prefix(v.cursor, v.writes);
    let (index, offset) = v.cursor.advanced(v.writes, n);
    let cursor = WriteCursor {
        index: index as usize,
        offset: offset as usize,
    };
    let state = WorkerView { cursor, ..v };
    assert(offered.take(n as int) =~= remaining.take(n as int));
    assert(content + remaining.skip(n as int) =~= disk[cur].content + remaining);
    assert(content.is_prefix_of(disk[cur].asked)) by {
        assert(content =~= disk[cur].asked.take(content.len() as int));
    }
    if index == v.writes.len() {
        assert(remaining.skip(n as int) =~= Seq::empty());
        assert(content =~= disk[cur].asked);
        lemma_written(state, now, after);
    }
}

proof fn lemma_received<W: WalTypes>(
    v: WorkerView<W>,
    request: SeqRequest<W>,
    now: u64,
    disk: Seq<FileState>,
)
    requires
        v.well_formed(),
        v.stage is Receive || v.stage is Collect,
        tracks(v, disk),
        v.pushed(request).writes.len() <= usize::MAX,
    ensures
        ({
            let event = if v.stage is Receive {
                Event::Received { request, now }
            } else {
                Event::ReceivedMore { request, now }
            };
            let step = if v.stage is Receive {
                v.received(request, now)
            } else {
                v.received_more(request, now)
            };
            let after = event.applied(v, disk);
            &&& tracks(step.state, after)
            &&& acknowledges(step.effects) ==> {
                &&& after[current(v, disk)].complete()
                &&& !crate::wal::worker_model::needs_sync(event.batch(v))
            }
        }),
{
    let cur = current(v, disk);
    if let WorkerRequest::Write(write) = request.req {
        let asked = disk[cur].asked + write.data@;
        let after = disk.update(cur, FileState { asked, ..disk[cur] });
        assert(disk[cur].content.is_prefix_of(asked));
        let pushed = v.pushed(request);
        crate::wal::vectored_write::lemma_data_pushed(v.writes, pushed.writes.last());
        assert(disk[cur].content + (crate::wal::vectored_write::batch_data(v.writes) + write.data@)
            =~= disk[cur].content + crate::wal::vectored_write::batch_data(v.writes) + write.data@);
        if v.stage is Receive {
            assert(crate::wal::vectored_write::batch_data(v.writes) =~= Seq::empty());
            assert(disk[cur].content + crate::wal::vectored_write::batch_data(v.writes)
                =~= disk[cur].content);
            lemma_collect_more(v.begun(request, now), now, after);
        } else {
            lemma_collect_more(pushed, now, after);
        }
    } else {
        if v.stage is Receive {
            lemma_control(
                WorkerView { seq: request.seq, ..v },
                request.req,
                Seq::empty(),
                disk,
            );
        } else {
            lemma_collect_more(v.pushed(request), now, disk);
        }
    }
}

proof fn lemma_synced<W: WalTypes>(
    v: WorkerView<W>,
    result: Result<(), Error>,
    now: u64,
    disk: Seq<FileState>,
)
    requires
        v.well_formed(),
        v.stage is Sync,
        tracks(v, disk),
    ensures
        ({
            let event = Event::Synced { result, now };
            let step = v.synced(result, now);
            let after = event.applied(v, disk);
            &&& tracks(step.state, after)
            &&& acknowledges(step.effects) ==> after[current(v, disk)].settled()
        }),
{
    let after = Event::<W>::Synced { result, now }.applied(v, disk);
    let roll = v.stage->roll;
    match result {
        Ok(_) => {
            if v.stage->last && !roll {
                let state = v.last_synced();
                let sync_time = Some(
                    crate::wal::batch_metrics::elapsed(v.timing.sync_started, now),
                );
                let timing = BatchTiming { sync_time, ..v.timing };
                assert(!acknowledges(seq![v.persisted()]));
                lemma_finish_batch(
                    WorkerView { timing, ..state },
                    result,
                    seq![v.persisted()],
                    now,
                    after,
                );
            }
        },
        Err(error) => {
            if !roll {
                let sync_time = Some(
                    crate::wal::batch_metrics::elapsed(v.timing.sync_started, now),
                );
                let timing = BatchTiming { sync_time, ..v.timing };
                lemma_finish_batch(
                    WorkerView { timing, ..v },
                    result,
                    Seq::empty(),
                    now,
                    after,
                );
            }
        },
    }
}

proof fn lemma_wrote<W: WalTypes>(
    v: WorkerView<W>,
    result: Result<usize, Error>,
    now: u64,
    step: StepView<W>,
    disk: Seq<FileState>,
)
    requires
        v.well_formed(),
        v.stage is Write,
        tracks(v, disk),
        v.writes.len() <= usize::MAX,
        result matches Ok(n) ==> n <= v.cursor.offered(v.writes).len(),
        v.wrote(result, now, step),
    ensures
        ({
            let after = Event::Wrote { result, now }.applied(v, disk);
            &&& tracks(step.state, after)
            &&& acknowledges(step.effects) ==> {
                &&& after[current(v, disk)].complete()
                &&& !crate::wal::worker_model::needs_sync(v.writes)
            }
        }),
{
    if let Ok(n) = result {
        lemma_advanced(v, n as nat, now, disk);
        if n == 0 {
            assert(disk[current(v, disk)].content + v.cursor.offered(v.writes).take(0)
                =~= disk[current(v, disk)].content);
        }
    }
}

proof fn lemma_removed<W: WalTypes>(
    v: WorkerView<W>,
    result: Result<(), Error>,
    disk: Seq<FileState>,
)
    requires
        v.stage is Remove,
        tracks(v, disk),
    ensures
        tracks(v.removed(result).state, disk),
        !acknowledges(v.removed(result).effects),
{
}

proof fn lemma_created<W: WalTypes>(
    v: WorkerView<W>,
    result: Result<Arc<W::File>, Error>,
    disk: Seq<FileState>,
)
    requires
        v.stage is Create,
        tracks(v, disk),
    ensures
        tracks(
            v.created(result).state,
            if result is Ok {
                disk.push(FileState::fresh())
            } else {
                disk
            },
        ),
        !acknowledges(v.created(result).effects),
{
}

proof fn lemma_dir_synced<W: WalTypes>(
    v: WorkerView<W>,
    result: Result<(), Error>,
    disk: Seq<FileState>,
)
    requires
        v.stage is SyncDir,
        tracks(v, disk),
    ensures
        tracks(
            v.dir_synced(result).state,
            Event::<W>::DirSynced { result }.applied(v, disk),
        ),
        !acknowledges(v.dir_synced(result).effects),
{
}

proof fn lemma_leading_written<W: WalTypes>(
    v: WorkerView<W>,
    result: Result<(), Error>,
    kept: nat,
    disk: Seq<FileState>,
)
    requires
        v.stage is WriteLeading,
        tracks(v, disk),
        kept <= v.roll->0.leading_bytes@.len(),
        result is Ok ==> kept == v.roll->0.leading_bytes@.len(),
    ensures
        tracks(
            v.leading_written(result).state,
            Event::<W>::LeadingWritten { result, kept }.applied(v, disk),
        ),
        !acknowledges(v.leading_written(result).effects),
{
    let leading = v.roll->0.leading_bytes@;
    assert(leading.take(kept as int).is_prefix_of(leading));
    assert(leading.take(leading.len() as int) =~= leading);
}

proof fn lemma_drained<W: WalTypes>(
    v: WorkerView<W>,
    request: Option<SeqRequest<W>>,
    disk: Seq<FileState>,
)
    requires
        v.stage is Drain,
        tracks(v, disk),
    ensures
        tracks(v.drained(request).state, disk),
        !acknowledges(v.drained(request).effects),
{
}

/// Whatever happens, the files keep pace with the worker's state: every file
/// holds the beginning of what was asked, in the order it was asked; all but
/// the current file are complete and durable; and a write request is
/// acknowledged only when all data asked for so far is in the file, and is
/// durable if a request of its batch asked for that.
pub proof fn law_step_tracks<W: WalTypes>(
    v: WorkerView<W>,
    event: Event<W>,
    step: StepView<W>,
    disk: Seq<FileState>,
)
    requires
        v.well_formed(),
        tracks(v, disk),
        event.enabled(v),
        event.leads_to(v, step),
        event.batch(v).len() <= usize::MAX,
    ensures
        tracks(step.state, event.applied(v, disk)),
        acknowledges(step.effects) ==> {
            let file = event.applied(v, disk)[current(v, disk)];
            &&& file.complete()
            &&& asks_for_sync(event.batch(v)) ==> file.settled()
        },
{
    match event {
        Event::Received { request, now } => {
            reveal(Event::leads_to);
            lemma_received(v, request, now, disk);
        },
        Event::Closed => {
            reveal(Event::leads_to);
        },
        Event::ReceivedMore { request, now } => {
            reveal(Event::leads_to);
            lemma_received(v, request, now, disk);
        },
        Event::ReceivedNone { now } => {
            reveal(Event::leads_to);
            lemma_start_write(v, now, disk);
        },
        Event::Wrote { result, now } => {
            reveal(Event::leads_to);
            lemma_wrote(v, result, now, step, disk);
        },
        Event::Synced { result, now } => {
            reveal(Event::leads_to);
            lemma_synced(v, result, now, disk);
        },
        Event::Removed { result } => {
            reveal(Event::leads_to);
            lemma_removed(v, result, disk);
        },
        Event::Created { result } => {
            reveal(Event::leads_to);
            lemma_created(v, result, disk);
        },
        Event::DirSynced { result } => {
            reveal(Event::leads_to);
            lemma_dir_synced(v, result, disk);
        },
        Event::LeadingWritten { result, kept } => {
            reveal(Event::leads_to);
            lemma_leading_written(v, result, kept, disk);
        },
        Event::Drained { request } => {
            reveal(Event::leads_to);
            lemma_drained(v, request, disk);
        },
    }
}

/// A chunk file is created only when every earlier chunk file holds all that
/// was asked, and all of it is durable.
pub proof fn law_created_after_predecessors_are_durable<W: WalTypes>(
    v: WorkerView<W>,
    event: Event<W>,
    step: StepView<W>,
    disk: Seq<FileState>,
)
    requires
        v.well_formed(),
        tracks(v, disk),
        event.enabled(v),
        event.leads_to(v, step),
        event.batch(v).len() <= usize::MAX,
        step.action is Create,
    ensures
        forall|i: int|
            0 <= i < event.applied(v, disk).len() ==> (#[trigger] event.applied(
                v,
                disk,
            )[i]).settled(),
{
    law_step_tracks(v, event, step, disk);
    crate::wal::step_shape::law_step_is_well_formed(v, event, step);
}

/// A file is removed only when all data asked for before the removal has been
/// written.
pub proof fn law_removed_after_data_is_written<W: WalTypes>(
    v: WorkerView<W>,
    event: Event<W>,
    step: StepView<W>,
    disk: Seq<FileState>,
)
    requires
        v.well_formed(),
        tracks(v, disk),
        event.enabled(v),
        event.leads_to(v, step),
        event.batch(v).len() <= usize::MAX,
        step.action is Remove,
    ensures
        event.applied(v, disk)[current(step.state, event.applied(v, disk))].complete(),
{
    law_step_tracks(v, event, step, disk);
    crate::wal::step_shape::law_step_is_well_formed(v, event, step);
}

/// A file is reported as persisted only when it has just been synced, and all
/// data asked for so far is durable. The report names that file and the
/// offset for which it was synced.
pub proof fn law_persisted_after_sync<W: WalTypes>(
    v: WorkerView<W>,
    event: Event<W>,
    step: StepView<W>,
    disk: Seq<FileState>,
)
    requires
        v.well_formed(),
        tracks(v, disk),
        event.enabled(v),
        event.leads_to(v, step),
        event.batch(v).len() <= usize::MAX,
        crate::wal::step_shape::reports_persisted(step.effects),
    ensures
        event matches Event::Synced { result: Ok(_), .. },
        v.stage->last,
        step.effects[0] == v.persisted(),
        forall|i: int|
            0 <= i < event.applied(v, disk).len() ==> (#[trigger] event.applied(
                v,
                disk,
            )[i]).settled(),
{
    crate::wal::step_shape::lemma_files_follow(v, event, step);
}

/// The files after the first `n` events of a run.
pub open spec fn disk_after<W: WalTypes>(
    states: Seq<WorkerView<W>>,
    events: Seq<Event<W>>,
    disk: Seq<FileState>,
    n: nat,
) -> Seq<FileState>
    decreases n,
{
    if n == 0 {
        disk
    } else {
        let i = n - 1;
        events[i].applied(states[i], disk_after(states, events, disk, i as nat))
    }
}

/// In every run, the files keep pace with the worker's state throughout.
pub proof fn law_run_tracks<W: WalTypes>(
    states: Seq<WorkerView<W>>,
    events: Seq<Event<W>>,
    steps: Seq<StepView<W>>,
    disk: Seq<FileState>,
    n: nat,
)
    requires
        crate::wal::worker_event::is_run(states, events, steps),
        states[0].well_formed(),
        tracks(states[0], disk),
        n <= events.len(),
    ensures
        tracks(states[n as int], disk_after(states, events, disk, n)),
    decreases n,
{
    if n > 0 {
        let i = n - 1;
        law_run_tracks(states, events, steps, disk, i as nat);
        crate::wal::step_shape::law_run_is_well_formed(states, events, steps, i as nat);
        assert(events[i].enabled(states[i]));
        law_step_tracks(
            states[i],
            events[i],
            steps[i],
            disk_after(states, events, disk, i as nat),
        );
    }
}

/// In every run, when a write request is acknowledged, all data that requests
/// have asked for so far is in the files; if a request of its batch asked for
/// a sync, all of it survives a crash.
pub proof fn law_run_acknowledges_what_is_written<W: WalTypes>(
    states: Seq<WorkerView<W>>,
    events: Seq<Event<W>>,
    steps: Seq<StepView<W>>,
    disk: Seq<FileState>,
    i: int,
)
    requires
        crate::wal::worker_event::is_run(states, events, steps),
        states[0].well_formed(),
        tracks(states[0], disk),
        0 <= i < events.len(),
        acknowledges(steps[i].effects),
    ensures
        ({
            let files = disk_after(states, events, disk, (i + 1) as nat);
            forall|k: int|
                0 <= k < files.len() ==> {
                    &&& (#[trigger] files[k]).complete()
                    &&& asks_for_sync(events[i].batch(states[i]))
                        ==> files[k].settled()
                }
        }),
{
    let before = disk_after(states, events, disk, i as nat);
    law_run_tracks(states, events, steps, disk, i as nat);
    crate::wal::step_shape::law_run_is_well_formed(states, events, steps, i as nat);
    assert(events[i].enabled(states[i]));
    law_step_tracks(states[i], events[i], steps[i], before);
    lemma_acknowledging_event(states[i], events[i], steps[i], before);
}

/// In every run, when a chunk file is created, all data that requests have
/// asked for so far is in the earlier files and survives a crash.
pub proof fn law_run_creates_after_predecessors_are_durable<W: WalTypes>(
    states: Seq<WorkerView<W>>,
    events: Seq<Event<W>>,
    steps: Seq<StepView<W>>,
    disk: Seq<FileState>,
    i: int,
)
    requires
        crate::wal::worker_event::is_run(states, events, steps),
        states[0].well_formed(),
        tracks(states[0], disk),
        0 <= i < events.len(),
        steps[i].action is Create,
    ensures
        ({
            let files = disk_after(states, events, disk, (i + 1) as nat);
            forall|k: int| 0 <= k < files.len() ==> (#[trigger] files[k]).settled()
        }),
{
    let before = disk_after(states, events, disk, i as nat);
    law_run_tracks(states, events, steps, disk, i as nat);
    crate::wal::step_shape::law_run_is_well_formed(states, events, steps, i as nat);
    assert(events[i].enabled(states[i]));
    law_created_after_predecessors_are_durable(states[i], events[i], steps[i], before);
}

/// When a write request is acknowledged, the current file is the last one.
proof fn lemma_acknowledging_event<W: WalTypes>(
    v: WorkerView<W>,
    event: Event<W>,
    step: StepView<W>,
    disk: Seq<FileState>,
)
    requires
        v.well_formed(),
        tracks(v, disk),
        event.enabled(v),
        event.leads_to(v, step),
        acknowledges(step.effects),
    ensures
        v.new_file is None,
        event.applied(v, disk).len() == disk.len(),
        forall|k: int|
            0 <= k < current(v, disk) ==> (#[trigger] event.applied(v, disk)[k]).settled(),
{
    match event {
        Event::DirSynced { result } => {
            reveal(Event::leads_to);
            lemma_dir_synced(v, result, disk);
        },
        Event::LeadingWritten { result, kept } => {
            reveal(Event::leads_to);
            lemma_leading_written(v, result, kept, disk);
        },
        Event::Created { result } => {
            reveal(Event::leads_to);
            lemma_created(v, result, disk);
        },
        _ => {},
    }
}

/// The most that a file may hold while the operation that the worker waits
/// for is under way. A file that is being created counts as the last one.
pub open spec fn reach<W: WalTypes>(v: WorkerView<W>, disk: Seq<FileState>, i: int) -> Seq<u8> {
    let cur = current(v, disk);
    if v.stage is Write && i == cur {
        disk[cur].content + v.cursor.offered(v.writes)
    } else if v.stage is WriteLeading && i == cur + 1 {
        v.roll->0.leading_bytes@
    } else if i == disk.len() {
        Seq::empty()
    } else {
        disk[i].content
    }
}

/// What a file is to hold: what was asked, or is being asked.
pub open spec fn wanted<W: WalTypes>(v: WorkerView<W>, disk: Seq<FileState>, i: int) -> Seq<u8> {
    if v.stage is WriteLeading && i == current(v, disk) + 1 {
        v.roll->0.leading_bytes@
    } else if i == disk.len() {
        Seq::empty()
    } else {
        disk[i].asked
    }
}

/// What may be left of the files after a crash, possibly in the midst of an
/// operation: every file whose name was durable, and of each file at least
/// what was durable.
pub open spec fn survives_crash<W: WalTypes>(
    v: WorkerView<W>,
    disk: Seq<FileState>,
    after: Seq<Seq<u8>>,
) -> bool {
    &&& after.len() <= disk.len() + if v.stage is Create {
        1int
    } else {
        0int
    }
    &&& forall|i: int| after.len() <= i < disk.len() ==> !(#[trigger] disk[i]).named
    &&& forall|i: int|
        0 <= i < after.len() ==> {
            &&& (#[trigger] after[i]).is_prefix_of(reach(v, disk, i))
            &&& i < disk.len() ==> disk[i].durable <= after[i].len()
        }
}

/// What a file may hold continues what it holds, and begins what it is to
/// hold.
proof fn lemma_reach<W: WalTypes>(v: WorkerView<W>, disk: Seq<FileState>, i: int)
    requires
        v.well_formed(),
        tracks(v, disk),
        0 <= i <= disk.len(),
    ensures
        i < disk.len() ==> disk[i].content.is_prefix_of(reach(v, disk, i)),
        reach(v, disk, i).is_prefix_of(wanted(v, disk, i)),
{
    let cur = current(v, disk);
    let most = reach(v, disk, i);
    if i < disk.len() {
        assert(disk[i].valid());
        assert(disk[i].content =~= most.take(disk[i].content.len() as int));
    }
    if v.stage is Write && i == cur {
        crate::wal::vectored_write::lemma_offered_is_prefix(v.cursor, v.writes);
    }
    assert(most =~= wanted(v, disk, i).take(most.len() as int));
}

/// A crash at any time tears at most the last chunk file: every file that has
/// a successor holds all that was asked, and the last one holds the beginning
/// of what it is to hold. No file is lost but one that was just being created.
pub proof fn law_crash_tears_only_the_last_file<W: WalTypes>(
    v: WorkerView<W>,
    disk: Seq<FileState>,
    after: Seq<Seq<u8>>,
)
    requires
        v.well_formed(),
        tracks(v, disk),
        survives_crash(v, disk, after),
    ensures
        disk.len() - 1 <= after.len(),
        forall|i: int| 0 <= i < after.len() ==> (#[trigger] after[i]).is_prefix_of(wanted(v, disk, i)),
        forall|i: int| 0 <= i < after.len() - 1 ==> #[trigger] after[i] == disk[i].asked,
{
    if after.len() < disk.len() {
        assert(!disk[after.len() as int].named);
    }
    assert forall|i: int| 0 <= i < after.len() implies {
        &&& (#[trigger] after[i]).is_prefix_of(wanted(v, disk, i))
        &&& i < after.len() - 1 ==> after[i] == disk[i].asked
    } by {
        lemma_reach(v, disk, i);
        assert(after[i].is_prefix_of(reach(v, disk, i)));
        assert(after[i] =~= wanted(v, disk, i).take(after[i].len() as int));
        if i < after.len() - 1 {
            assert(disk[i].settled());
            assert(after[i] =~= disk[i].asked);
        }
    }
}

/// The later file holds what the earlier one holds, and as much of it or more
/// is durable.
spec fn grown(earlier: FileState, later: FileState) -> bool {
    &&& earlier.content.is_prefix_of(later.content)
    &&& earlier.durable <= later.durable
    &&& earlier.named ==> later.named
}

proof fn lemma_event_grows<W: WalTypes>(v: WorkerView<W>, event: Event<W>, disk: Seq<FileState>)
    requires
        v.well_formed(),
        tracks(v, disk),
        event.enabled(v),
    ensures
        disk.len() <= event.applied(v, disk).len(),
        forall|k: int|
            0 <= k < disk.len() ==> grown(#[trigger] disk[k], event.applied(v, disk)[k]),
{
    let after = event.applied(v, disk);
    assert forall|k: int| 0 <= k < disk.len() implies grown(#[trigger] disk[k], after[k]) by {
        assert(disk[k].valid());
        assert(disk[k].content =~= after[k].content.take(disk[k].content.len() as int));
    }
}

proof fn lemma_run_grows<W: WalTypes>(
    states: Seq<WorkerView<W>>,
    events: Seq<Event<W>>,
    steps: Seq<StepView<W>>,
    disk: Seq<FileState>,
    i: nat,
    j: nat,
)
    requires
        crate::wal::worker_event::is_run(states, events, steps),
        states[0].well_formed(),
        tracks(states[0], disk),
        i <= j <= events.len(),
    ensures
        ({
            let earlier = disk_after(states, events, disk, i);
            let later = disk_after(states, events, disk, j);
            &&& earlier.len() <= later.len()
            &&& forall|k: int| 0 <= k < earlier.len() ==> grown(#[trigger] earlier[k], later[k])
        }),
    decreases j - i,
{
    let earlier = disk_after(states, events, disk, i);
    let later = disk_after(states, events, disk, j);
    if i < j {
        let m = (j - 1) as nat;
        let mid = disk_after(states, events, disk, m);
        lemma_run_grows(states, events, steps, disk, i, m);
        law_run_tracks(states, events, steps, disk, m);
        crate::wal::step_shape::law_run_is_well_formed(states, events, steps, m);
        assert(events[m as int].enabled(states[m as int]));
        lemma_event_grows(states[m as int], events[m as int], mid);
        assert forall|k: int| 0 <= k < earlier.len() implies grown(
            #[trigger] earlier[k],
            later[k],
        ) by {
            assert(grown(earlier[k], mid[k]) && grown(mid[k], later[k]));
            let len = earlier[k].content.len() as int;
            assert(earlier[k].content =~= later[k].content.take(len));
        }
    } else {
        assert forall|k: int| 0 <= k < earlier.len() implies grown(
            #[trigger] earlier[k],
            later[k],
        ) by {
            assert(earlier[k].content =~= later[k].content.take(
                earlier[k].content.len() as int,
            ));
        }
    }
}

/// Data that was acknowledged as durable survives every crash: if the machine
/// crashes at any time after a write request was acknowledged whose batch
/// asked for a sync, every file that was there is still there, and holds all
/// that requests had asked for when the request was acknowledged.
pub proof fn law_acknowledged_data_survives_a_crash<W: WalTypes>(
    states: Seq<WorkerView<W>>,
    events: Seq<Event<W>>,
    steps: Seq<StepView<W>>,
    disk: Seq<FileState>,
    i: int,
    j: nat,
    after: Seq<Seq<u8>>,
)
    requires
        crate::wal::worker_event::is_run(states, events, steps),
        states[0].well_formed(),
        tracks(states[0], disk),
        0 <= i < j <= events.len(),
        acknowledges(steps[i].effects),
        asks_for_sync(events[i].batch(states[i])),
        survives_crash(states[j as int], disk_after(states, events, disk, j), after),
    ensures
        ({
            let files = disk_after(states, events, disk, (i + 1) as nat);
            &&& files.len() <= after.len()
            &&& forall|k: int|
                0 <= k < files.len() ==> (#[trigger] files[k]).asked.is_prefix_of(after[k])
        }),
{
    let files = disk_after(states, events, disk, (i + 1) as nat);
    let later = disk_after(states, events, disk, j);
    let v = states[j as int];
    law_run_acknowledges_what_is_written(states, events, steps, disk, i);
    lemma_run_grows(states, events, steps, disk, (i + 1) as nat, j);
    law_run_tracks(states, events, steps, disk, j);
    crate::wal::step_shape::law_run_is_well_formed(states, events, steps, j);
    if after.len() < files.len() {
        let k = after.len() as int;
        assert(files[k].settled());
        assert(grown(files[k], later[k]));
    }
    assert forall|k: int| 0 <= k < files.len() implies (#[trigger] files[k]).asked.is_prefix_of(
        after[k],
    ) by {
        assert(files[k].settled());
        assert(grown(files[k], later[k]));
        lemma_reach(v, later, k);
        assert(after[k].is_prefix_of(reach(v, later, k)));
        assert(files[k].asked =~= after[k].take(files[k].asked.len() as int));
    }
}

/// A record that was acknowledged as durable can be read after every crash:
/// if a chunk's file was asked to hold the chunk's records when a request was
/// acknowledged whose batch asked for a sync, the file still gives back each
/// of them.
pub proof fn law_acknowledged_record_is_read_back<W: WalTypes, F>(
    states: Seq<WorkerView<W>>,
    events: Seq<Event<W>>,
    steps: Seq<StepView<W>>,
    disk: Seq<FileState>,
    i: int,
    j: nat,
    after: Seq<Seq<u8>>,
    k: int,
    chunk: Chunk<F>,
    records: Seq<Seq<u8>>,
    index: int,
)
    requires
        crate::wal::worker_event::is_run(states, events, steps),
        states[0].well_formed(),
        tracks(states[0], disk),
        0 <= i < j <= events.len(),
        acknowledges(steps[i].effects),
        asks_for_sync(events[i].batch(states[i])),
        survives_crash(states[j as int], disk_after(states, events, disk, j), after),
        0 <= k < disk_after(states, events, disk, (i + 1) as nat).len(),
        chunk.lays_out(records),
        disk_after(states, events, disk, (i + 1) as nat)[k].asked == crate::chunk::layout::image(
            records,
        ),
        0 <= index < records.len(),
    ensures
        ({
            let segment = chunk.segment(index);
            let position = segment.offset - chunk.start();
            &&& 0 <= position <= position + segment.size <= after[k].len()
            &&& after[k].subrange(position, position + segment.size) == records[index]
        }),
{
    let files = disk_after(states, events, disk, (i + 1) as nat);
    let image = crate::chunk::layout::image(records);
    law_acknowledged_data_survives_a_crash(states, events, steps, disk, i, j, after);
    assert(files[k].asked.is_prefix_of(after[k]));
    crate::chunk::layout::lemma_segment_lies_in_image(chunk, records, index);
    crate::chunk::layout::law_read_gives_back_what_was_appended(
        chunk,
        records,
        after[k],
        index,
    );
}

} // verus!
