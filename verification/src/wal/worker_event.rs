//! What can happen to the flush worker.

use crate::errors::Error;
use crate::types::WalTypes;
use crate::wal::flush_request::SeqRequest;
use crate::wal::queued_write::QueuedWrite;
use crate::wal::worker_model::StepView;
use crate::wal::worker_model::WorkerView;
use std::sync::Arc;
use vstd::prelude::*;

verus! {

/// Something the worker is told.
pub enum Event<W: WalTypes> {
    /// A request arrives that begins a round.
    Received { request: SeqRequest<W>, now: u64 },
    /// The sender is gone and the queue is empty.
    Closed,
    /// A request arrives while the batch is being collected.
    ReceivedMore { request: SeqRequest<W>, now: u64 },
    /// No further request arrives while the batch is being collected.
    ReceivedNone { now: u64 },
    /// A vectored write returns.
    Wrote { result: Result<usize, Error>, now: u64 },
    /// A file sync returns.
    Synced { result: Result<(), Error>, now: u64 },
    /// A file removal returns.
    Removed { result: Result<(), Error> },
    /// The creation of a chunk file returns.
    Created { result: Result<Arc<W::File>, Error> },
    /// A directory sync returns.
    DirSynced { result: Result<(), Error> },
    /// The write of a new chunk's leading bytes returns, having written
    /// `kept` bytes.
    LeadingWritten { result: Result<(), Error>, kept: nat },
    /// After a failure, the queue yields a request or is empty.
    Drained { request: Option<SeqRequest<W>> },
}

impl<W: WalTypes> Event<W> {
    /// The event can happen in state `v`: the worker waits for it, and the
    /// operating system reports no more bytes than it was offered.
    pub open spec fn enabled(self, v: WorkerView<W>) -> bool {
        match self {
            Event::Received { .. } | Event::Closed => v.stage is Receive,
            Event::ReceivedMore { .. } | Event::ReceivedNone { .. } => v.stage is Collect,
            Event::Wrote { result, .. } => {
                &&& v.stage is Write
                &&& result matches Ok(n) ==> n <= v.cursor.offered(v.writes).len()
            },
            Event::Synced { .. } => v.stage is Sync,
            Event::Removed { .. } => v.stage is Remove,
            Event::Created { .. } => v.stage is Create,
            Event::DirSynced { .. } => v.stage is SyncDir,
            Event::LeadingWritten { result, kept } => {
                &&& v.stage is WriteLeading
                &&& kept <= v.leading().len()
                &&& result is Ok ==> kept == v.leading().len()
            },
            Event::Drained { .. } => v.stage is Drain,
        }
    }

    /// `step` is how the worker reacts to the event in state `v`.
    #[verifier::opaque]
    pub open spec fn leads_to(self, v: WorkerView<W>, step: StepView<W>) -> bool {
        match self {
            Event::Received { request, now } => step == v.received(request, now),
            Event::Closed => step == v.closed(),
            Event::ReceivedMore { request, now } => step == v.received_more(request, now),
            Event::ReceivedNone { now } => step == v.start_write(now),
            Event::Wrote { result, now } => v.wrote(result, now, step),
            Event::Synced { result, now } => step == v.synced(result, now),
            Event::Removed { result } => step == v.removed(result),
            Event::Created { result } => step == v.created(result),
            Event::DirSynced { result } => step == v.dir_synced(result),
            Event::LeadingWritten { result, .. } => step == v.leading_written(result),
            Event::Drained { request } => step == v.drained(request),
        }
    }

    /// The batch that the event's step deals with.
    pub open spec fn batch(self, v: WorkerView<W>) -> Seq<QueuedWrite<W>> {
        match self {
            Event::Received { request, .. } => v.pushed(request).writes,
            Event::ReceivedMore { request, .. } => v.pushed(request).writes,
            _ => v.writes,
        }
    }
}

/// A chain of steps: each event happens in the state the previous step led
/// to.
pub open spec fn is_run<W: WalTypes>(
    states: Seq<WorkerView<W>>,
    events: Seq<Event<W>>,
    steps: Seq<StepView<W>>,
) -> bool {
    &&& states.len() == events.len() + 1
    &&& steps.len() == events.len()
    &&& forall|i: int|
        0 <= i < events.len() ==> {
            &&& (#[trigger] events[i]).enabled(states[i])
            &&& events[i].leads_to(states[i], steps[i])
            &&& events[i].batch(states[i]).len() <= usize::MAX
            &&& states[i + 1] == steps[i].state
        }
}

} // verus!
