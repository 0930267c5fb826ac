//! The behaviour of the flush worker, as a state machine.
//!
//! The worker processes its requests in the order they were sent. Write
//! requests that arrive close together form a batch: their data is written
//! with as few system calls as possible, then made durable if one of them
//! asks for it, then every callback is told the outcome. Any other request
//! ends the batch and is processed after it.

use crate::errors::Error;
use crate::types::WalTypes;
use crate::wal::batch_metrics::BatchTiming;
use crate::wal::file_entry::FileEntry;
use crate::wal::file_persisted::ChunkPersisted;
use crate::wal::flush_request::FlushStat;
use crate::wal::flush_request::RollRequest;
use crate::wal::flush_request::SeqRequest;
use crate::wal::flush_request::WorkerRequest;
use crate::wal::queued_write::QueuedWrite;
use crate::wal::vectored_write::WriteCursor;
use crate::wal::worker_step::Action;
use crate::wal::worker_step::Effect;
use crate::wal::worker_step::Stage;
use std::sync::Arc;
use vstd::prelude::*;

verus! {

/// The state of the flush worker.
#[verifier::ext_equal]
pub struct WorkerView<W: WalTypes> {
    /// The chunk files that may have unsynced data, oldest first. Data is
    /// written to the last one.
    pub files: Seq<FileEntry<W>>,
    /// How long to wait for more write requests, in nanoseconds.
    pub wait: u64,
    /// How many write requests a batch takes.
    pub max_items: usize,
    /// What the worker is waiting for.
    pub stage: Stage,
    /// The write requests of the batch.
    pub writes: Seq<QueuedWrite<W>>,
    /// The highest sequence number among them.
    pub max_seq: u64,
    /// The request that ended the batch.
    pub pending: Option<SeqRequest<W>>,
    /// When to stop waiting for more write requests.
    pub deadline: u64,
    /// How far the batch has been written.
    pub cursor: WriteCursor,
    /// Measurements of the batch.
    pub timing: BatchTiming,
    /// The offset to report when the sync in progress succeeds.
    pub sync_offset: u64,
    /// The new chunk being materialized.
    pub roll: Option<RollRequest<W>>,
    /// The file created for it.
    pub new_file: Option<Arc<W::File>>,
    /// Files still to be removed.
    pub removals: Seq<String>,
    /// The sequence number to report when the current work is done.
    pub seq: u64,
    /// Why the worker stopped.
    pub failure: Option<Error>,
}

/// The state after an event, and what the worker asks for.
#[verifier::ext_equal]
pub struct StepView<W: WalTypes> {
    /// The new state.
    pub state: WorkerView<W>,
    /// What to do at once.
    pub effects: Seq<Effect<W>>,
    /// What to do next.
    pub action: Action<W>,
}

/// Whether a write request of the batch has to be made durable.
pub open spec fn needs_sync<W: WalTypes>(writes: Seq<QueuedWrite<W>>) -> bool {
    exists|i: int| 0 <= i < writes.len() && (#[trigger] writes[i]).write.sync
}

/// The reserved bytes that are returned once the batch has been written.
pub open spec fn releases<W: WalTypes>(writes: Seq<QueuedWrite<W>>) -> Seq<Effect<W>> {
    Seq::new(writes.len(), |i: int| Effect::Release { bytes: writes[i].write.data.len() })
}

/// The callbacks of the batch, in order, each told `result`.
pub open spec fn notifications<W: WalTypes>(
    writes: Seq<QueuedWrite<W>>,
    result: Result<(), Error>,
) -> Seq<Effect<W>>
    decreases writes.len(),
{
    if writes.len() == 0 {
        Seq::empty()
    } else {
        let before = notifications(writes.drop_last(), result);
        match writes.last().write.callback {
            Some(callback) => before.push(Effect::Notify { callback, result }),
            None => before,
        }
    }
}

/// The time `wait` after `now`, as far as the clock reaches.
pub open spec fn deadline_after(now: u64, wait: u64) -> u64 {
    if now + wait <= u64::MAX {
        (now + wait) as u64
    } else {
        u64::MAX
    }
}

impl<W: WalTypes> WorkerView<W> {
    /// The state between two rounds.
    pub open spec fn idle(self) -> Self {
        WorkerView {
            stage: Stage::Receive,
            writes: Seq::empty(),
            max_seq: 0,
            pending: None,
            ..self
        }
    }

    /// A request has been processed: report it and wait for the next one.
    pub open spec fn complete(self, effects: Seq<Effect<W>>) -> StepView<W> {
        StepView {
            state: self.idle(),
            effects: effects.push(Effect::Complete { seq: self.seq }),
            action: Action::Receive,
        }
    }

    /// The slots of chunks that are known to the worker and have no file yet.
    pub open spec fn open_slots(self) -> Seq<W::Slot> {
        let current = match self.roll {
            Some(roll) => seq![roll.file_slot],
            None => Seq::empty(),
        };
        match self.pending {
            Some(SeqRequest { req: WorkerRequest::Roll(roll), .. }) => current.push(
                roll.file_slot,
            ),
            _ => current,
        }
    }

    /// The worker gives up because of `error`: waiters for files that will
    /// never be created are told, everything it still holds is dropped, and
    /// what is left in the queue is taken off.
    pub open spec fn fail(self, error: Error, effects: Seq<Effect<W>>) -> StepView<W> {
        let slots = self.open_slots();
        StepView {
            state: WorkerView {
                stage: Stage::Drain,
                roll: None,
                new_file: None,
                removals: Seq::empty(),
                failure: Some(error),
                ..self.idle()
            },
            effects: (effects + Seq::new(
                slots.len(),
                |i: int| Effect::FailSlot { slot: slots[i], error },
            )).push(Effect::Stopped { failure: Some(error) }),
            action: Action::Drain,
        }
    }

    /// Syncs the oldest file. Unless it is the only one, it leaves the list.
    pub open spec fn begin_sync(self, roll: bool, effects: Seq<Effect<W>>) -> StepView<W>
        recommends
            self.files.len() > 0,
    {
        let last = self.files.len() == 1;
        StepView {
            state: WorkerView {
                stage: Stage::Sync { last, roll },
                files: if last {
                    self.files
                } else {
                    self.files.drop_first()
                },
                ..self
            },
            effects,
            action: Action::Sync { file: self.files[0].f },
        }
    }

    /// Removes the next file of a removal request, if one is left.
    pub open spec fn remove_next(self, effects: Seq<Effect<W>>) -> StepView<W> {
        if self.removals.len() == 0 {
            self.complete(effects)
        } else {
            StepView {
                state: WorkerView {
                    stage: Stage::Remove,
                    removals: self.removals.drop_first(),
                    ..self
                },
                effects,
                action: Action::Remove { path: self.removals[0] },
            }
        }
    }

    /// Processes a request other than a write.
    pub open spec fn control(self, req: WorkerRequest<W>, effects: Seq<Effect<W>>) -> StepView<W>
        recommends
            !(req is Write),
    {
        match req {
            WorkerRequest::Roll(roll) => WorkerView {
                sync_offset: roll.starting_offset,
                roll: Some(roll),
                ..self
            }.begin_sync(true, effects),
            WorkerRequest::RemoveChunks { chunk_paths } => WorkerView {
                removals: chunk_paths@,
                ..self
            }.remove_next(effects),
            WorkerRequest::GetFlushStat { tx } => self.complete(
                effects.push(Effect::ReplyStat { tx }),
            ),
            WorkerRequest::Write(_) => self.complete(effects),
        }
    }

    /// The batch has been processed: record it, tell the callbacks, and go on
    /// with the request that ended it.
    pub open spec fn finish_batch(
        self,
        result: Result<(), Error>,
        effects: Seq<Effect<W>>,
        now: u64,
    ) -> StepView<W> {
        let metrics = crate::wal::batch_metrics::batch_metrics(self.writes, self.timing, now);
        let told = effects.push(Effect::RecordBatch { metrics }) + notifications(
            self.writes,
            result,
        );
        match self.pending {
            None => WorkerView { seq: self.max_seq, ..self }.complete(told),
            Some(request) => {
                let seq = if request.seq > self.max_seq {
                    request.seq
                } else {
                    self.max_seq
                };
                WorkerView { seq, ..self.idle() }.control(request.req, told)
            },
        }
    }

    /// The files have been synced for the batch, or could not be.
    pub open spec fn batch_synced(
        self,
        result: Result<(), Error>,
        effects: Seq<Effect<W>>,
        now: u64,
    ) -> StepView<W> {
        let sync_time = Some(crate::wal::batch_metrics::elapsed(self.timing.sync_started, now));
        let timing = BatchTiming { sync_time, ..self.timing };
        WorkerView { timing, ..self }.finish_batch(result, effects, now)
    }

    /// The batch has been written: return its reserved bytes, then make it
    /// durable if a request asks for that.
    pub open spec fn written(self, now: u64) -> StepView<W> {
        let write_time = crate::wal::batch_metrics::elapsed(self.timing.batch_started, now);
        let timing = BatchTiming { write_time, sync_started: now, ..self.timing };
        let after = WorkerView { timing, ..self };
        if needs_sync(self.writes) {
            WorkerView {
                sync_offset: self.writes.last().write.upto_offset,
                ..after
            }.begin_sync(false, releases(self.writes))
        } else {
            after.finish_batch(Ok(()), releases(self.writes), now)
        }
    }

    /// The batch is complete: write it.
    pub open spec fn start_write(self, now: u64) -> StepView<W> {
        let group_wait = crate::wal::batch_metrics::elapsed(self.timing.collect_started, now);
        let timing = BatchTiming { group_wait, batch_started: now, ..self.timing };
        let first = crate::wal::vectored_write::first_with_data(self.writes, 0);
        let cursor = WriteCursor { index: first as usize, offset: 0 };
        let after = WorkerView { timing, cursor, ..self };
        if first == self.writes.len() {
            after.written(now)
        } else {
            StepView {
                state: WorkerView { stage: Stage::Write, ..after },
                effects: Seq::empty(),
                action: Action::Write { file: self.files.last().f },
            }
        }
    }

    /// Waits for more write requests, unless the batch is complete.
    pub open spec fn collect_more(self, now: u64) -> StepView<W> {
        if self.pending is Some || self.writes.len() >= self.max_items || self.deadline <= now {
            self.start_write(now)
        } else {
            StepView {
                state: WorkerView { stage: Stage::Collect, ..self },
                effects: Seq::empty(),
                action: Action::ReceiveTimeout { remaining: (self.deadline - now) as u64 },
            }
        }
    }

    /// The state after a request has been added to the batch.
    pub open spec fn pushed(self, request: SeqRequest<W>) -> Self {
        match request.req {
            WorkerRequest::Write(write) => WorkerView {
                writes: self.writes.push(QueuedWrite { queued_at: request.queued_at, write }),
                max_seq: if request.seq > self.max_seq {
                    request.seq
                } else {
                    self.max_seq
                },
                ..self
            },
            _ => WorkerView { pending: Some(request), ..self },
        }
    }

    /// The state after a write request has begun a batch.
    pub open spec fn begun(self, request: SeqRequest<W>, now: u64) -> Self {
        WorkerView {
            deadline: deadline_after(now, self.wait),
            timing: BatchTiming {
                collect_started: now,
                group_wait: 0,
                batch_started: now,
                write_time: 0,
                sync_started: now,
                sync_time: None,
            },
            ..self.pushed(request)
        }
    }

    /// A request arrives that begins a round.
    pub open spec fn received(self, request: SeqRequest<W>, now: u64) -> StepView<W> {
        if request.req is Write {
            self.begun(request, now).collect_more(now)
        } else {
            WorkerView { seq: request.seq, ..self }.control(request.req, Seq::empty())
        }
    }

    /// A request arrives while the batch is being collected.
    pub open spec fn received_more(self, request: SeqRequest<W>, now: u64) -> StepView<W> {
        self.pushed(request).collect_more(now)
    }

    /// The sender is gone and the queue is empty: stop.
    pub open spec fn closed(self) -> StepView<W> {
        StepView {
            state: WorkerView { stage: Stage::Stopped, ..self },
            effects: seq![Effect::Stopped { failure: None }],
            action: Action::Quit,
        }
    }

    /// Goes on with the batch after `n` of the offered bytes were written.
    pub open spec fn advanced(self, n: nat, now: u64) -> StepView<W> {
        let (index, offset) = self.cursor.advanced(self.writes, n);
        let cursor = WriteCursor { index: index as usize, offset: offset as usize };
        let after = WorkerView { cursor, ..self };
        if index == self.writes.len() {
            after.written(now)
        } else {
            StepView {
                state: after,
                effects: Seq::empty(),
                action: Action::Write { file: self.files.last().f },
            }
        }
    }

    /// What follows when a vectored write returns.
    ///
    /// An interrupted write is tried again. A write that takes nothing would
    /// never end, and counts as a failure.
    pub open spec fn wrote(self, result: Result<usize, Error>, now: u64, step: StepView<W>) -> bool {
        match result {
            Ok(n) => if n == 0 {
                exists|error: Error|
                    {
                        &&& error.kind == std::io::ErrorKind::WriteZero
                        &&& error.message@ == "failed to write whole buffer"@
                        &&& step == #[trigger] self.fail(error, Seq::empty())
                    }
            } else {
                step == self.advanced(n as nat, now)
            },
            Err(error) => if error.kind == std::io::ErrorKind::Interrupted {
                step == StepView {
                    state: self,
                    effects: Seq::empty(),
                    action: Action::Write { file: self.files.last().f },
                }
            } else {
                step == self.fail(error, Seq::empty())
            },
        }
    }

    /// The state after the last file has been synced.
    pub open spec fn last_synced(self) -> Self {
        WorkerView {
            files: self.files.update(
                0,
                FileEntry { sync_id: self.sync_offset, ..self.files[0] },
            ),
            ..self
        }
    }

    /// The report that the last file has been synced.
    pub open spec fn persisted(self) -> Effect<W> {
        let entry = self.files[0];
        Effect::Persisted {
            call: entry.on_persisted.invocation(
                ChunkPersisted {
                    file: entry.f,
                    starting_offset: entry.starting_offset,
                    synced_offset: self.sync_offset,
                },
            ),
        }
    }

    /// A file sync returns.
    ///
    /// When all files are durable, the persisted callback of the last one is
    /// due. A failed sync is reported to the callbacks of the batch that
    /// asked for it; a new chunk that waited for it is given up.
    pub open spec fn synced(self, result: Result<(), Error>, now: u64) -> StepView<W>
        recommends
            self.stage is Sync,
    {
        let last = self.stage->last;
        let roll = self.stage->roll;
        match result {
            Ok(_) => if !last {
                self.begin_sync(roll, Seq::empty())
            } else if roll {
                StepView {
                    state: WorkerView { stage: Stage::Create, ..self.last_synced() },
                    effects: seq![self.persisted()],
                    action: Action::Create { path: self.roll->0.path },
                }
            } else {
                self.last_synced().batch_synced(Ok(()), seq![self.persisted()], now)
            },
            Err(error) => if roll {
                self.fail(error, Seq::empty())
            } else {
                self.batch_synced(Err(error), Seq::empty(), now)
            },
        }
    }

    /// A file removal returns.
    pub open spec fn removed(self, result: Result<(), Error>) -> StepView<W> {
        match result {
            Ok(_) => self.remove_next(Seq::empty()),
            Err(error) => self.fail(error, Seq::empty()),
        }
    }

    /// The creation of a chunk file returns.
    pub open spec fn created(self, result: Result<Arc<W::File>, Error>) -> StepView<W> {
        match result {
            Ok(file) => StepView {
                state: WorkerView { stage: Stage::SyncDir, new_file: Some(file), ..self },
                effects: Seq::empty(),
                action: Action::SyncDir,
            },
            Err(error) => self.fail(error, Seq::empty()),
        }
    }

    /// The directory sync that follows the creation of a chunk file returns.
    pub open spec fn dir_synced(self, result: Result<(), Error>) -> StepView<W> {
        match result {
            Ok(_) => StepView {
                state: WorkerView { stage: Stage::WriteLeading, ..self },
                effects: Seq::empty(),
                action: Action::WriteLeading { file: self.new_file->0 },
            },
            Err(error) => self.fail(error, Seq::empty()),
        }
    }

    /// The write of a new chunk's leading bytes returns. The chunk's file is
    /// published, and takes all further data.
    pub open spec fn leading_written(self, result: Result<(), Error>) -> StepView<W> {
        match result {
            Ok(_) => {
                let roll = self.roll->0;
                let file = self.new_file->0;
                let entry = FileEntry {
                    starting_offset: roll.starting_offset,
                    f: file,
                    on_persisted: roll.on_persisted,
                    sync_id: 0,
                };
                WorkerView {
                    files: self.files.push(entry),
                    roll: None,
                    new_file: None,
                    ..self
                }.complete(seq![Effect::Publish { slot: roll.file_slot, file }])
            },
            Err(error) => self.fail(error, Seq::empty()),
        }
    }

    /// After a failure, the queue yields a request, or is empty.
    pub open spec fn drained(self, request: Option<SeqRequest<W>>) -> StepView<W> {
        match request {
            Some(SeqRequest { req: WorkerRequest::Roll(roll), .. }) => StepView {
                state: self,
                effects: seq![Effect::FailSlot { slot: roll.file_slot, error: self.failure->0 }],
                action: Action::Drain,
            },
            Some(_) => StepView { state: self, effects: Seq::empty(), action: Action::Drain },
            None => StepView {
                state: WorkerView { stage: Stage::Stopped, ..self },
                effects: Seq::empty(),
                action: Action::Quit,
            },
        }
    }

    /// The bytes with which the file of the chunk being materialized is to
    /// begin.
    pub open spec fn leading(self) -> Seq<u8> {
        self.roll->0.leading_bytes@
    }

    /// The sync progress of every file, whose inode numbers are `inos`.
    pub open spec fn stats(self, inos: Seq<u64>) -> Seq<FlushStat> {
        Seq::new(
            self.files.len(),
            |i: int|
                FlushStat {
                    starting_offset: self.files[i].starting_offset,
                    sync_id: self.files[i].sync_id,
                    ino: inos[i],
                },
        )
    }

    /// What holds of the worker's state between two events.
    pub open spec fn well_formed(self) -> bool {
        &&& self.files.len() > 0
        &&& self.pending is Some ==> !(self.pending->0.req is Write)
        &&& match self.stage {
            Stage::Receive => {
                &&& self.writes.len() == 0
                &&& self.max_seq == 0
                &&& self.pending is None
                &&& self.roll is None
            },
            Stage::Collect => {
                &&& self.writes.len() > 0
                &&& self.pending is None
                &&& self.roll is None
            },
            Stage::Write => {
                &&& self.writes.len() > 0
                &&& self.cursor.valid(self.writes)
                &&& self.cursor.index < self.writes.len()
                &&& self.roll is None
            },
            Stage::Sync { last, roll } => {
                &&& last ==> self.files.len() == 1
                &&& roll <==> self.roll is Some
                &&& roll ==> self.writes.len() == 0 && self.pending is None
                &&& !roll ==> self.writes.len() > 0
            },
            Stage::Create => {
                &&& self.roll is Some
                &&& self.writes.len() == 0
                &&& self.pending is None
            },
            Stage::SyncDir | Stage::WriteLeading => {
                &&& self.roll is Some
                &&& self.new_file is Some
                &&& self.writes.len() == 0
                &&& self.pending is None
            },
            Stage::Remove => {
                &&& self.writes.len() == 0
                &&& self.pending is None
                &&& self.roll is None
            },
            Stage::Drain => {
                &&& self.failure is Some
                &&& self.writes.len() == 0
                &&& self.pending is None
                &&& self.roll is None
            },
            Stage::Stopped => {
                &&& self.writes.len() == 0
                &&& self.pending is None
                &&& self.roll is None
            },
        }
    }
}

impl<W: WalTypes> StepView<W> {
    /// The worker is in a state it can be in between two events, and asks for
    /// the event that it waits for.
    pub open spec fn well_formed(self) -> bool {
        &&& self.state.well_formed()
        &&& match self.action {
            Action::Receive => self.state.stage is Receive,
            Action::ReceiveTimeout { .. } => self.state.stage is Collect,
            Action::Write { file } => {
                &&& self.state.stage is Write
                &&& file == self.state.files.last().f
            },
            Action::Sync { file } => {
                &&& self.state.stage matches Stage::Sync { last, .. }
                &&& last ==> file == self.state.files[0].f
            },
            Action::Remove { .. } => self.state.stage is Remove,
            Action::Create { path } => {
                &&& self.state.stage is Create
                &&& path == self.state.roll->0.path
            },
            Action::SyncDir => self.state.stage is SyncDir,
            Action::WriteLeading { file } => {
                &&& self.state.stage is WriteLeading
                &&& Some(file) == self.state.new_file
            },
            Action::Drain => self.state.stage is Drain,
            Action::Quit => self.state.stage is Stopped,
        }
    }
}

} // verus!
