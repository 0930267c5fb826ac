//! The flush worker: writes queued data to the chunk files and makes it
//! durable.
//!
//! The worker performs no I/O itself. Its methods take the outcome of an
//! operation and return a [`Step`]: effects to perform at once, and the next
//! operation whose outcome it needs.

use crate::errors::clone_outcome;
use crate::errors::Error;
use crate::types::WalTypes;
use crate::wal::batch_metrics::elapsed_since;
use crate::wal::batch_metrics::BatchMetrics;
use crate::wal::batch_metrics::BatchTiming;
use crate::wal::file_entry::FileEntry;
use crate::wal::file_persisted::ChunkPersisted;
use crate::wal::flush_request::FlushStat;
use crate::wal::flush_request::RollRequest;
use crate::wal::flush_request::SeqRequest;
use crate::wal::flush_request::WorkerRequest;
use crate::wal::queued_write::QueuedWrite;
use crate::wal::vectored_write::WriteCursor;
use crate::wal::worker_model::StepView;
use crate::wal::worker_model::WorkerView;
use crate::wal::worker_step::Action;
use crate::wal::worker_step::Effect;
use crate::wal::worker_step::Stage;
use crate::wal::worker_step::Step;
use crate::wal::write_batch::WriteBatch;
use std::sync::Arc;
use vstd::prelude::*;

verus! {

/// The flush worker.
pub struct FlushWorker<W: WalTypes> {
    /// The chunk files that may have unsynced data, oldest first.
    pub files: Vec<FileEntry<W>>,
    /// How long to wait for more write requests, in nanoseconds.
    pub flush_batch_wait: u64,
    /// How many write requests a batch takes.
    pub flush_batch_max_items: usize,
    /// What the worker is waiting for.
    pub stage: Stage,
    /// The batch being processed.
    pub batch: WriteBatch<W>,
    /// When to stop waiting for more write requests.
    pub deadline: u64,
    /// How far the batch has been written.
    pub cursor: WriteCursor,
    /// Measurements of the batch.
    pub timing: BatchTiming,
    /// The offset to report when the sync in progress succeeds.
    pub sync_offset: u64,
    /// The new chunk being materialized.
    pub roll: Option<RollRequest<W>>,
    /// The file created for it.
    pub new_file: Option<Arc<W::File>>,
    /// Files still to be removed.
    pub removals: Vec<String>,
    /// The sequence number to report when the current work is done.
    pub seq: u64,
    /// Why the worker stopped.
    pub failure: Option<Error>,
}

impl<W: WalTypes> View for FlushWorker<W> {
    type V = WorkerView<W>;

    open spec fn view(&self) -> WorkerView<W> {
        WorkerView {
            files: self.files@,
            wait: self.flush_batch_wait,
            max_items: self.flush_batch_max_items,
            stage: self.stage,
            writes: self.batch.writes@,
            max_seq: self.batch.max_seq,
            pending: self.batch.last_non_flush,
            deadline: self.deadline,
            cursor: self.cursor,
            timing: self.timing,
            sync_offset: self.sync_offset,
            roll: self.roll,
            new_file: self.new_file,
            removals: self.removals@,
            seq: self.seq,
            failure: self.failure,
        }
    }
}

impl<W: WalTypes> FlushWorker<W> {
    /// The worker's state is one it can be in between two events.
    pub open spec fn well_formed(self) -> bool {
        &&& self@.well_formed()
        &&& self.batch.max_size == self.flush_batch_max_items
    }

    /// What holds throughout: there is a file to write to, and only a request
    /// other than a write ends a batch.
    spec fn consistent(self) -> bool {
        &&& self.files@.len() > 0
        &&& self@.pending is Some ==> !(self@.pending->0.req is Write)
        &&& self.batch.max_size == self.flush_batch_max_items
    }

    /// No batch is being processed, and no new chunk materialized.
    spec fn between_requests(self) -> bool {
        &&& self.consistent()
        &&& self.roll is None
        &&& self@.writes.len() == 0
        &&& self@.pending is None
    }

    /// A batch is being processed.
    spec fn holds_batch(self) -> bool {
        &&& self.consistent()
        &&& self.roll is None
        &&& self@.writes.len() > 0
    }

    /// The worker's state together with what it asks for.
    pub open spec fn step_view(self, step: Step<W>) -> StepView<W> {
        StepView { state: self@, effects: step.effects@, action: step.action }
    }

    /// Creates a worker that appends to one chunk file and waits for its
    /// first request.
    pub fn new(
        file_entry: FileEntry<W>,
        flush_batch_wait: u64,
        flush_batch_max_items: usize,
    ) -> (r: Self)
        ensures
            r.well_formed(),
            r.files@ == seq![file_entry],
            r.flush_batch_wait == flush_batch_wait,
            r.flush_batch_max_items == flush_batch_max_items,
            r.stage == Stage::Receive,
            r.new_file is None,
            r.failure is None,
            r.removals@ == Seq::<String>::empty(),
    {
        let mut files: Vec<FileEntry<W>> = Vec::new();
        files.push(file_entry);
        FlushWorker {
            files,
            flush_batch_wait,
            flush_batch_max_items,
            stage: Stage::Receive,
            batch: WriteBatch::new(flush_batch_max_items),
            deadline: 0,
            cursor: WriteCursor { index: 0, offset: 0 },
            timing: BatchTiming::new(0),
            sync_offset: 0,
            roll: None,
            new_file: None,
            removals: Vec::new(),
            seq: 0,
            failure: None,
        }
    }

    /// Ends a round: reports its sequence number and waits for a request.
    fn complete(&mut self, effects: Vec<Effect<W>>) -> (r: Step<W>)
        requires
            old(self).consistent(),
            old(self).roll is None,
        ensures
            final(self).step_view(r) == old(self)@.complete(effects@),
            final(self).well_formed(),
            final(self).step_view(r).well_formed(),
    {
        let mut effects = effects;
        effects.push(Effect::Complete { seq: self.seq });
        self.stage = Stage::Receive;
        self.batch = WriteBatch::new(self.flush_batch_max_items);
        Step { effects, action: Action::Receive }
    }

    /// Gives up because of `error`.
    fn fail(&mut self, error: Error, effects: Vec<Effect<W>>) -> (r: Step<W>)
        requires
            old(self).consistent(),
        ensures
            final(self).step_view(r) == old(self)@.fail(error, effects@),
            final(self).well_formed(),
            final(self).step_view(r).well_formed(),
    {
        let ghost slots = self@.open_slots();
        let ghost given = effects@;
        let mut effects = effects;
        let roll = self.roll.take();
        if let Some(roll) = roll {
            effects.push(Effect::FailSlot { slot: roll.file_slot, error: error.clone() });
        }
        let pending = self.batch.last_non_flush.take();
        if let Some(request) = pending {
            if let WorkerRequest::Roll(roll) = request.req {
                effects.push(Effect::FailSlot { slot: roll.file_slot, error: error.clone() });
            }
        }
        assert(effects@ =~= given + Seq::new(
            slots.len(),
            |i: int| Effect::<W>::FailSlot { slot: slots[i], error },
        ));
        effects.push(Effect::Stopped { failure: Some(error.clone()) });
        self.stage = Stage::Drain;
        self.batch = WriteBatch::new(self.flush_batch_max_items);
        self.new_file = None;
        self.removals = Vec::new();
        self.failure = Some(error);
        Step { effects, action: Action::Drain }
    }

    /// Begins to sync all files and returns the first one to sync, if there
    /// is any; `offset` is reported once they are durable.
    ///
    /// Append-only flushes only need file data durability. Metadata changes
    /// such as recovery truncation are synchronized at the call site that
    /// performs the metadata update.
    pub fn sync_data_files(&mut self, offset: u64) -> (r: Option<Arc<W::File>>)
        ensures
            r == (if old(self).files@.len() == 0 {
                None
            } else {
                Some(old(self).files@[0].f)
            }),
            final(self)@ == (WorkerView {
                sync_offset: offset,
                files: if old(self).files@.len() > 1 {
                    old(self).files@.drop_first()
                } else {
                    old(self).files@
                },
                ..old(self)@
            }),
            final(self).batch == old(self).batch,
    {
        self.sync_offset = offset;
        if self.files.len() == 0 {
            None
        } else if self.files.len() > 1 {
            let entry = self.files.remove(0);
            Some(entry.f)
        } else {
            Some(self.files[0].f.clone())
        }
    }

    /// Asks for the next file to be synced.
    fn begin_sync(&mut self, roll: bool, effects: Vec<Effect<W>>) -> (r: Step<W>)
        requires
            old(self).consistent(),
            roll <==> old(self).roll is Some,
            roll ==> old(self)@.writes.len() == 0 && old(self)@.pending is None,
            !roll ==> old(self)@.writes.len() > 0,
        ensures
            final(self).step_view(r) == old(self)@.begin_sync(roll, effects@),
            final(self).well_formed(),
            final(self).step_view(r).well_formed(),
    {
        let last = self.files.len() == 1;
        let file = self.sync_data_files(self.sync_offset);
        self.stage = Stage::Sync { last, roll };
        Step { effects, action: Action::Sync { file: file.unwrap() } }
    }

    /// Asks for the next file to be removed, if one is left.
    fn remove_next(&mut self, effects: Vec<Effect<W>>) -> (r: Step<W>)
        requires
            old(self).between_requests(),
        ensures
            final(self).step_view(r) == old(self)@.remove_next(effects@),
            final(self).well_formed(),
            final(self).step_view(r).well_formed(),
    {
        if self.removals.len() == 0 {
            self.complete(effects)
        } else {
            let path = self.removals.remove(0);
            self.stage = Stage::Remove;
            Step { effects, action: Action::Remove { path } }
        }
    }

    /// Begins to process a request other than a write.
    fn handle_non_flush_request(
        &mut self,
        req: WorkerRequest<W>,
        effects: Vec<Effect<W>>,
    ) -> (r: Step<W>)
        requires
            !(req is Write),
            old(self).between_requests(),
        ensures
            final(self).step_view(r) == old(self)@.control(req, effects@),
            final(self).well_formed(),
            final(self).step_view(r).well_formed(),
    {
        match req {
            WorkerRequest::Roll(roll) => {
                self.sync_offset = roll.starting_offset;
                self.roll = Some(roll);
                self.begin_sync(true, effects)
            },
            WorkerRequest::RemoveChunks { chunk_paths } => {
                self.removals = chunk_paths;
                self.remove_next(effects)
            },
            WorkerRequest::GetFlushStat { tx } => {
                let mut effects = effects;
                effects.push(Effect::ReplyStat { tx });
                self.complete(effects)
            },
            WorkerRequest::Write(_) => self.complete(effects),
        }
    }

    /// Tells the callbacks of `writes`, in order, the outcome.
    fn notify_all(
        writes: Vec<QueuedWrite<W>>,
        result: &Result<(), Error>,
        effects: &mut Vec<Effect<W>>,
    )
        ensures
            final(effects)@ == old(effects)@ + crate::wal::worker_model::notifications(
                writes@,
                *result,
            ),
    {
        let ghost given = effects@;
        for w in it: writes
            invariant
                it.seq() == writes@,
                effects@ == given + crate::wal::worker_model::notifications(
                    writes@.take(it.index()),
                    *result,
                ),
        {
            assert(writes@.take(it.index() + 1).drop_last() =~= writes@.take(it.index()));
            if let Some(callback) = w.write.callback {
                effects.push(Effect::Notify { callback, result: clone_outcome(result) });
            }
        }
        assert(writes@.take(writes@.len() as int) =~= writes@);
    }

    /// Ends the batch: records it, tells the callbacks, and goes on with the
    /// request that ended it.
    fn finish_batch(
        &mut self,
        result: Result<(), Error>,
        effects: Vec<Effect<W>>,
        now: u64,
    ) -> (r: Step<W>)
        requires
            old(self).holds_batch(),
        ensures
            final(self).step_view(r) == old(self)@.finish_batch(result, effects@, now),
            final(self).well_formed(),
            final(self).step_view(r).well_formed(),
    {
        let mut effects = effects;
        let mut batch = WriteBatch::new(self.flush_batch_max_items);
        std::mem::swap(&mut batch, &mut self.batch);
        let WriteBatch { writes, max_seq, last_non_flush, max_size: _ } = batch;
        let metrics = BatchMetrics::measure(&writes, self.timing, now);
        effects.push(Effect::RecordBatch { metrics });
        Self::notify_all(writes, &result, &mut effects);
        match last_non_flush {
            None => {
                self.seq = max_seq;
                self.complete(effects)
            },
            Some(SeqRequest { seq, queued_at: _, req }) => {
                self.seq = if seq > max_seq {
                    seq
                } else {
                    max_seq
                };
                self.stage = Stage::Receive;
                self.handle_non_flush_request(req, effects)
            },
        }
    }

    /// Returns whether a write request has to be made durable.
    fn any_sync(writes: &Vec<QueuedWrite<W>>) -> (r: bool)
        ensures
            r == crate::wal::worker_model::needs_sync(writes@),
    {
        let mut i: usize = 0;
        while i < writes.len()
            invariant
                i <= writes@.len(),
                forall|j: int| 0 <= j < i ==> !(#[trigger] writes@[j]).write.sync,
            decreases writes.len() - i,
        {
            if writes[i].write.sync {
                return true;
            }
            i = i + 1;
        }
        false
    }

    /// Returns the reserved bytes of every write request.
    fn release_all(writes: &Vec<QueuedWrite<W>>) -> (r: Vec<Effect<W>>)
        ensures
            r@ == crate::wal::worker_model::releases(writes@),
    {
        let mut effects: Vec<Effect<W>> = Vec::new();
        let mut i: usize = 0;
        while i < writes.len()
            invariant
                i <= writes@.len(),
                effects@ == crate::wal::worker_model::releases(writes@).take(i as int),
            decreases writes.len() - i,
        {
            effects.push(Effect::Release { bytes: writes[i].write.data.len() });
            i = i + 1;
        }
        effects
    }

    /// Goes on after the files have been synced for the batch, or could not
    /// be.
    fn batch_synced(
        &mut self,
        result: Result<(), Error>,
        effects: Vec<Effect<W>>,
        now: u64,
    ) -> (r: Step<W>)
        requires
            old(self).holds_batch(),
        ensures
            final(self).step_view(r) == old(self)@.batch_synced(result, effects@, now),
            final(self).well_formed(),
            final(self).step_view(r).well_formed(),
    {
        self.timing.sync_time = Some(elapsed_since(self.timing.sync_started, now));
        self.finish_batch(result, effects, now)
    }

    /// Goes on after the whole batch has been written.
    fn written(&mut self, now: u64) -> (r: Step<W>)
        requires
            old(self).holds_batch(),
        ensures
            final(self).step_view(r) == old(self)@.written(now),
            final(self).well_formed(),
            final(self).step_view(r).well_formed(),
    {
        self.timing.write_time = elapsed_since(self.timing.batch_started, now);
        self.timing.sync_started = now;
        let effects = Self::release_all(&self.batch.writes);
        if Self::any_sync(&self.batch.writes) {
            let last: usize = self.batch.writes.len() - 1;
            self.sync_offset = self.batch.writes[last].write.upto_offset;
            self.begin_sync(false, effects)
        } else {
            self.finish_batch(Ok(()), effects, now)
        }
    }

    /// Begins to write the batch.
    fn start_write(&mut self, now: u64) -> (r: Step<W>)
        requires
            old(self).holds_batch(),
        ensures
            final(self).step_view(r) == old(self)@.start_write(now),
            final(self).well_formed(),
            final(self).step_view(r).well_formed(),
    {
        self.timing.group_wait = elapsed_since(self.timing.collect_started, now);
        self.timing.batch_started = now;
        self.cursor = WriteCursor::start(&self.batch.writes);
        if self.cursor.is_done(&self.batch.writes) {
            self.written(now)
        } else {
            self.stage = Stage::Write;
            self.write_more()
        }
    }

    /// Asks for a vectored write to the last file.
    fn write_more(&self) -> (r: Step<W>)
        requires
            self.files@.len() > 0,
        ensures
            r.effects@ == Seq::<Effect<W>>::empty(),
            r.action == (Action::<W>::Write { file: self.files@.last().f }),
    {
        let file = self.files[self.files.len() - 1].f.clone();
        Step { effects: Vec::new(), action: Action::Write { file } }
    }

    /// Returns how long to wait for another request of the batch, or `None`
    /// if the batch is complete: a request other than a write has ended it,
    /// it is full, or the deadline has passed.
    pub fn collect_write_batch(&self, batch: &WriteBatch<W>, deadline: u64, now: u64) -> (r: Option<
        u64,
    >)
        ensures
            r == (if batch.last_non_flush is Some || batch.writes@.len() >= batch.max_size
                || deadline <= now {
                None
            } else {
                Some((deadline - now) as u64)
            }),
    {
        if batch.last_non_flush.is_some() || batch.writes.len() >= batch.max_size || deadline
            <= now {
            None
        } else {
            Some(deadline - now)
        }
    }

    /// Waits for another request of the batch, or begins to write it.
    fn collect_more(&mut self, now: u64) -> (r: Step<W>)
        requires
            old(self).holds_batch(),
        ensures
            final(self).step_view(r) == old(self)@.collect_more(now),
            final(self).well_formed(),
            final(self).step_view(r).well_formed(),
    {
        match self.collect_write_batch(&self.batch, self.deadline, now) {
            Some(remaining) => {
                self.stage = Stage::Collect;
                Step { effects: Vec::new(), action: Action::ReceiveTimeout { remaining } }
            },
            None => self.start_write(now),
        }
    }

    /// A request arrives that begins a round.
    pub fn received(&mut self, request: SeqRequest<W>, now: u64) -> (r: Step<W>)
        requires
            old(self).well_formed(),
            old(self).stage == Stage::Receive,
        ensures
            final(self).step_view(r) == old(self)@.received(request, now),
            final(self).well_formed(),
            final(self).step_view(r).well_formed(),
    {
        if self.batch.push_seq_request(request) {
            self.timing = BatchTiming::new(now);
            self.deadline = now.saturating_add(self.flush_batch_wait);
            self.collect_more(now)
        } else {
            let SeqRequest { seq, queued_at: _, req } = self.batch.last_non_flush.take().unwrap();
            self.seq = seq;
            self.handle_non_flush_request(req, Vec::new())
        }
    }

    /// The sender is gone and the queue is empty.
    pub fn closed(&mut self) -> (r: Step<W>)
        requires
            old(self).well_formed(),
            old(self).stage == Stage::Receive,
        ensures
            final(self).step_view(r) == old(self)@.closed(),
            final(self).well_formed(),
            final(self).step_view(r).well_formed(),
    {
        self.stage = Stage::Stopped;
        let mut effects: Vec<Effect<W>> = Vec::new();
        effects.push(Effect::Stopped { failure: None });
        Step { effects, action: Action::Quit }
    }

    /// A request arrives while the batch is being collected.
    pub fn received_more(&mut self, request: SeqRequest<W>, now: u64) -> (r: Step<W>)
        requires
            old(self).well_formed(),
            old(self).stage == Stage::Collect,
        ensures
            final(self).step_view(r) == old(self)@.received_more(request, now),
            final(self).well_formed(),
            final(self).step_view(r).well_formed(),
    {
        self.batch.push_seq_request(request);
        self.collect_more(now)
    }

    /// No further request arrives while the batch is being collected: time is
    /// up, or the sender is gone.
    pub fn received_none(&mut self, now: u64) -> (r: Step<W>)
        requires
            old(self).well_formed(),
            old(self).stage == Stage::Collect,
        ensures
            final(self).step_view(r) == old(self)@.start_write(now),
            final(self).well_formed(),
            final(self).step_view(r).well_formed(),
    {
        self.start_write(now)
    }

    /// Returns the buffers to offer to the vectored write that is due.
    pub fn write_slices(&self) -> (r: Vec<&[u8]>)
        requires
            self.well_formed(),
            self.stage == Stage::Write,
        ensures
            crate::wal::vectored_write::buffer_views(r@) == self.cursor.offered_buffers(
                self.batch.writes@,
            ),
            1 <= r@.len() <= crate::wal::vectored_write::MAX_VECTORED_WRITE_SLICES,
            forall|k: int| 0 <= k < r@.len() ==> (#[trigger] r@[k])@.len() > 0,
    {
        self.cursor.slices(&self.batch.writes)
    }

    /// A vectored write returns.
    pub fn wrote(&mut self, result: Result<usize, Error>, now: u64) -> (r: Step<W>)
        requires
            old(self).well_formed(),
            old(self).stage == Stage::Write,
        ensures
            old(self)@.wrote(result, now, final(self).step_view(r)),
            final(self).well_formed(),
            final(self).step_view(r).well_formed(),
    {
        match result {
            Ok(n) => {
                if n == 0 {
                    let error = Error::new(
                        std::io::ErrorKind::WriteZero,
                        "failed to write whole buffer",
                    );
                    return self.fail(error, Vec::new());
                }
                self.cursor.advance(&self.batch.writes, n);
                if self.cursor.is_done(&self.batch.writes) {
                    self.written(now)
                } else {
                    self.write_more()
                }
            },
            Err(error) => {
                match error.kind {
                    std::io::ErrorKind::Interrupted => self.write_more(),
                    _ => self.fail(error, Vec::new()),
                }
            },
        }
    }

    /// A file sync returns.
    pub fn synced(&mut self, result: Result<(), Error>, now: u64) -> (r: Step<W>)
        requires
            old(self).well_formed(),
            old(self).stage is Sync,
        ensures
            final(self).step_view(r) == old(self)@.synced(result, now),
            final(self).well_formed(),
            final(self).step_view(r).well_formed(),
    {
        let (last, roll) = match self.stage {
            Stage::Sync { last, roll } => (last, roll),
            _ => (true, false),
        };
        if let Err(error) = result {
            return if roll {
                self.fail(error, Vec::new())
            } else {
                self.batch_synced(Err(error), Vec::new(), now)
            };
        }
        if !last {
            return self.begin_sync(roll, Vec::new());
        }
        let entry = &self.files[0];
        let persisted = ChunkPersisted {
            file: entry.f.clone(),
            starting_offset: entry.starting_offset,
            synced_offset: self.sync_offset,
        };
        let call = entry.on_persisted.call(persisted);
        let mut effects: Vec<Effect<W>> = Vec::new();
        effects.push(Effect::Persisted { call });
        self.files[0].sync_id = self.sync_offset;
        if roll {
            let path = self.roll.as_ref().unwrap().path.clone();
            self.stage = Stage::Create;
            Step { effects, action: Action::Create { path } }
        } else {
            self.batch_synced(Ok(()), effects, now)
        }
    }

    /// A file removal returns.
    pub fn removed(&mut self, result: Result<(), Error>) -> (r: Step<W>)
        requires
            old(self).well_formed(),
            old(self).stage == Stage::Remove,
        ensures
            final(self).step_view(r) == old(self)@.removed(result),
            final(self).well_formed(),
            final(self).step_view(r).well_formed(),
    {
        match result {
            Ok(_) => self.remove_next(Vec::new()),
            Err(error) => self.fail(error, Vec::new()),
        }
    }

    /// The creation of a chunk file returns.
    pub fn created(&mut self, result: Result<Arc<W::File>, Error>) -> (r: Step<W>)
        requires
            old(self).well_formed(),
            old(self).stage == Stage::Create,
        ensures
            final(self).step_view(r) == old(self)@.created(result),
            final(self).well_formed(),
            final(self).step_view(r).well_formed(),
    {
        match result {
            Ok(file) => {
                self.new_file = Some(file);
                self.stage = Stage::SyncDir;
                Step { effects: Vec::new(), action: Action::SyncDir }
            },
            Err(error) => self.fail(error, Vec::new()),
        }
    }

    /// The directory sync that follows the creation of a chunk file returns.
    pub fn dir_synced(&mut self, result: Result<(), Error>) -> (r: Step<W>)
        requires
            old(self).well_formed(),
            old(self).stage == Stage::SyncDir,
        ensures
            final(self).step_view(r) == old(self)@.dir_synced(result),
            final(self).well_formed(),
            final(self).step_view(r).well_formed(),
    {
        match result {
            Ok(_) => {
                let file = self.new_file.as_ref().unwrap().clone();
                self.stage = Stage::WriteLeading;
                Step { effects: Vec::new(), action: Action::WriteLeading { file } }
            },
            Err(error) => self.fail(error, Vec::new()),
        }
    }

    /// Returns the leading bytes of the chunk being materialized.
    pub fn leading_bytes(&self) -> (r: &[u8])
        requires
            self.well_formed(),
            self.stage == Stage::WriteLeading,
        ensures
            r@ == self.roll->0.leading_bytes@,
            r@ == self@.leading(),
    {
        self.roll.as_ref().unwrap().leading_bytes.as_slice()
    }

    /// The write of a new chunk's leading bytes returns.
    pub fn leading_written(&mut self, result: Result<(), Error>) -> (r: Step<W>)
        requires
            old(self).well_formed(),
            old(self).stage == Stage::WriteLeading,
        ensures
            final(self).step_view(r) == old(self)@.leading_written(result),
            final(self).well_formed(),
            final(self).step_view(r).well_formed(),
    {
        match result {
            Ok(_) => {
                let roll = self.roll.take().unwrap();
                let file = self.new_file.take().unwrap();
                let entry = FileEntry::new(roll.starting_offset, file.clone(), roll.on_persisted);
                self.files.push(entry);
                let mut effects: Vec<Effect<W>> = Vec::new();
                effects.push(Effect::Publish { slot: roll.file_slot, file });
                self.complete(effects)
            },
            Err(error) => self.fail(error, Vec::new()),
        }
    }

    /// Returns the sync progress of every file. `inos` are the files' inode
    /// numbers.
    pub fn flush_stats(&self, inos: &Vec<u64>) -> (r: Vec<FlushStat>)
        requires
            inos@.len() == self.files@.len(),
        ensures
            r@ == Seq::new(
                self.files@.len(),
                |i: int|
                    FlushStat {
                        starting_offset: self.files@[i].starting_offset,
                        sync_id: self.files@[i].sync_id,
                        ino: inos@[i],
                    },
            ),
            r@ == self@.stats(inos@),
    {
        let mut stats: Vec<FlushStat> = Vec::new();
        let mut i: usize = 0;
        while i < self.files.len()
            invariant
                i <= self.files@.len(),
                inos@.len() == self.files@.len(),
                stats@.len() == i,
                forall|j: int|
                    0 <= j < i ==> #[trigger] stats@[j] == (FlushStat {
                        starting_offset: self.files@[j].starting_offset,
                        sync_id: self.files@[j].sync_id,
                        ino: inos@[j],
                    }),
            decreases self.files.len() - i,
        {
            let entry = &self.files[i];
            stats.push(
                FlushStat {
                    starting_offset: entry.starting_offset,
                    sync_id: entry.sync_id,
                    ino: inos[i],
                },
            );
            i = i + 1;
        }
        stats
    }

    /// After a failure, the queue yields a request, or is empty.
    pub fn drained(&mut self, request: Option<SeqRequest<W>>) -> (r: Step<W>)
        requires
            old(self).well_formed(),
            old(self).stage == Stage::Drain,
        ensures
            final(self).step_view(r) == old(self)@.drained(request),
            final(self).well_formed(),
            final(self).step_view(r).well_formed(),
    {
        let mut effects: Vec<Effect<W>> = Vec::new();
        match request {
            Some(request) => {
                if let WorkerRequest::Roll(roll) = request.req {
                    let error = self.failure.as_ref().unwrap().clone();
                    effects.push(Effect::FailSlot { slot: roll.file_slot, error });
                }
                Step { effects, action: Action::Drain }
            },
            None => {
                self.stage = Stage::Stopped;
                Step { effects, action: Action::Quit }
            },
        }
    }
}

} // verus!
