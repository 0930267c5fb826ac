//! What the flush worker and the senders of requests share.

use crate::errors::Error;
use crate::wal::queued_bytes::QueuedBytes;
use vstd::prelude::*;

verus! {

/// Completion and failure state reported by the flush worker.
#[derive(Debug)]
pub struct WorkerState {
    /// The highest sequence number completed by the worker.
    pub done_seq: u64,
    /// Why the worker stopped, if it failed.
    pub failure: Option<Error>,
    /// The bound on queued data.
    pub queued_bytes: QueuedBytes,
}

impl WorkerState {
    /// After a failure, nothing is reserved: nobody would return it.
    pub open spec fn well_formed(self) -> bool {
        self.failure is Some ==> self.queued_bytes.used == 0
    }

    /// The state once every request up to `seq` has been processed.
    pub open spec fn completed(self, seq: u64) -> Self {
        WorkerState { done_seq: seq, ..self }
    }

    /// The state once `bytes` reserved bytes have been returned.
    pub open spec fn released(self, bytes: usize) -> Self {
        WorkerState { queued_bytes: self.queued_bytes.released(bytes), ..self }
    }

    /// The state once the worker processes no more requests.
    pub open spec fn stopped(self, failure: Option<Error>) -> Self {
        WorkerState { failure, queued_bytes: self.queued_bytes.cleared(), ..self }
    }

    /// Creates the state of a worker that has not completed anything.
    pub fn new(flush_queue_max_bytes: usize) -> (r: Self)
        ensures
            r == (WorkerState {
                done_seq: 0,
                failure: None,
                queued_bytes: QueuedBytes { limit: flush_queue_max_bytes, used: 0 },
            }),
            r.well_formed(),
    {
        WorkerState {
            done_seq: 0,
            failure: None,
            queued_bytes: QueuedBytes::new(flush_queue_max_bytes),
        }
    }

    /// Records that every request up to `seq` has been processed.
    pub fn complete(&mut self, seq: u64)
        ensures
            *final(self) == old(self).completed(seq),
            old(self).well_formed() ==> final(self).well_formed(),
    {
        self.done_seq = seq;
    }

    /// Returns `bytes` reserved bytes, once the request that they were
    /// reserved for has been written.
    pub fn release(&mut self, bytes: usize)
        requires
            bytes <= old(self).queued_bytes.used,
        ensures
            *final(self) == old(self).released(bytes),
            old(self).well_formed() ==> final(self).well_formed(),
    {
        self.queued_bytes.release(bytes);
    }

    /// Records that the worker processes no more requests. Nothing will
    /// return the bytes of requests left behind, so all are returned here.
    pub fn stop(&mut self, failure: Option<Error>)
        ensures
            *final(self) == old(self).stopped(failure),
            final(self).well_formed(),
    {
        self.failure = failure;
        self.queued_bytes.release_all();
    }

    /// The outcome of waiting for request `seq`, once there is one.
    pub open spec fn outcome(self, seq: u64) -> Option<Result<(), Error>> {
        if self.done_seq >= seq {
            Some(Ok(()))
        } else {
            match self.failure {
                Some(error) => Some(Err(error)),
                None => None,
            }
        }
    }

    /// Returns the outcome of waiting until the worker has processed every
    /// request up to `seq` or has failed; `None` means to wait longer.
    pub fn wait_for(&self, seq: u64) -> (r: Option<Result<(), Error>>)
        ensures
            r == self.outcome(seq),
    {
        if self.done_seq >= seq {
            Some(Ok(()))
        } else {
            match &self.failure {
                Some(error) => Some(Err(error.clone())),
                None => None,
            }
        }
    }

    /// Returns the highest sequence number completed by the worker.
    pub fn done_seq(&self) -> (r: u64)
        ensures
            r == self.done_seq,
    {
        self.done_seq
    }
}

/// Waiting for a request succeeds exactly when it has been completed; it fails
/// exactly when it has not and the worker has failed, with the worker's error;
/// and it goes on otherwise.
pub proof fn law_waiting_ends_with_completion_or_failure(
    state: WorkerState,
    seq: u64,
    error: Error,
)
    ensures
        state.outcome(seq) == Some(Ok::<(), Error>(())) <==> seq <= state.done_seq,
        state.outcome(seq) == Some(Err::<(), Error>(error)) <==> seq > state.done_seq
            && state.failure == Some(error),
        state.outcome(seq) is None <==> seq > state.done_seq && state.failure is None,
{
}

/// A request that has been completed stays so, and so does everyone's answer:
/// completing it answers those who wait for it or for an earlier one, stopping
/// the worker leaves them answered, and returning bytes changes no answer.
pub proof fn law_answers_stay(
    state: WorkerState,
    seq: u64,
    done: u64,
    failure: Option<Error>,
    bytes: usize,
)
    requires
        seq <= done,
        bytes <= state.queued_bytes.used,
    ensures
        state.completed(done).outcome(seq) == Some(Ok::<(), Error>(())),
        state.completed(done).stopped(failure).outcome(seq) == Some(Ok::<(), Error>(())),
        state.released(bytes).outcome(seq) == state.outcome(seq),
        state.released(bytes).queued_bytes.used + bytes == state.queued_bytes.used,
        state.completed(done).queued_bytes == state.queued_bytes,
        state.completed(done).failure == state.failure,
        state.stopped(failure).queued_bytes.used == 0,
        state.stopped(failure).queued_bytes.limit == state.queued_bytes.limit,
        state.stopped(failure).failure == failure,
{
}

/// Once the worker has failed, everyone who waits for a request that it did
/// not complete is told the same error, however often they ask.
pub proof fn law_failure_answers_every_wait(state: WorkerState, error: Error, seq: u64)
    requires
        state.done_seq < seq,
    ensures
        state.stopped(Some(error)).outcome(seq) == Some(Err::<(), Error>(error)),
{
}

} // verus!
