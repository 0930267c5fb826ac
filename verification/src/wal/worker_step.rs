//! What the flush worker asks its surroundings to do.

use crate::errors::Error;
use crate::types::WalTypes;
use crate::wal::batch_metrics::BatchMetrics;
use crate::wal::file_persisted::PersistedCall;
use std::sync::Arc;
use vstd::prelude::*;

verus! {

/// Something to be done at once; the worker does not depend on its outcome.
pub enum Effect<W: WalTypes> {
    /// Return bytes that the queue had reserved for a write request.
    Release { bytes: usize },
    /// Add the measurements of a batch to the metrics.
    RecordBatch { metrics: BatchMetrics },
    /// Report that a chunk file has been persisted.
    Persisted { call: PersistedCall<W> },
    /// Tell a callback the outcome of its write request.
    Notify { callback: W::Callback, result: Result<(), Error> },
    /// Answer a request for flush statistics.
    ReplyStat { tx: W::StatReply },
    /// Publish the file of a new chunk in its slot.
    Publish { slot: W::Slot, file: Arc<W::File> },
    /// Mark the slot of a chunk whose file will never be created.
    FailSlot { slot: W::Slot, error: Error },
    /// Report that every request up to `seq` has been processed.
    Complete { seq: u64 },
    /// Report that the worker processes no more requests, and why.
    Stopped { failure: Option<Error> },
}

/// Something to be done whose outcome is reported back to the worker.
pub enum Action<W: WalTypes> {
    /// Wait for a request.
    Receive,
    /// Wait for a request, for at most `remaining` nanoseconds.
    ReceiveTimeout { remaining: u64 },
    /// Write, in one vectored write, the buffers at the batch's cursor.
    Write { file: Arc<W::File> },
    /// Make the data of a file durable.
    Sync { file: Arc<W::File> },
    /// Remove a file.
    Remove { path: String },
    /// Create a chunk file.
    Create { path: String },
    /// Make the directory of the log durable.
    SyncDir,
    /// Write the leading bytes of a new chunk, all of them.
    WriteLeading { file: Arc<W::File> },
    /// Take a request off the queue without waiting.
    Drain,
    /// End.
    Quit,
}

/// Effects to perform in order, and the action to perform after them.
pub struct Step<W: WalTypes> {
    /// What to do at once.
    pub effects: Vec<Effect<W>>,
    /// What to do next.
    pub action: Action<W>,
}

/// What the worker is waiting for.
#[derive(Debug, Clone, Copy, PartialEq, Eq)]
pub enum Stage {
    /// A request that begins a new round.
    Receive,
    /// More write requests for the batch.
    Collect,
    /// The outcome of a vectored write.
    Write,
    /// The outcome of a file sync. `last` tells whether it is the last file
    /// to sync, `roll` whether a new chunk waits for it.
    Sync { last: bool, roll: bool },
    /// The outcome of a file removal.
    Remove,
    /// The outcome of the creation of a chunk file.
    Create,
    /// The outcome of a directory sync.
    SyncDir,
    /// The outcome of writing a new chunk's leading bytes.
    WriteLeading,
    /// After a failure: requests left in the queue.
    Drain,
    /// Nothing.
    Stopped,
}

} // verus!
