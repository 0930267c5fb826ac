//! Sending requests to the flush worker.

use crate::errors::Error;
use crate::types::WalTypes;
use crate::wal::flush_request::SeqRequest;
use crate::wal::flush_request::WorkerRequest;
use crate::wal::worker_state::WorkerState;
use std::io::ErrorKind;
use vstd::prelude::*;
use vstd::string::StringExecFns;

verus! {

/// Sends sequenced requests to the flush worker and tracks its progress.
#[derive(Debug)]
pub struct FlushClient {
    /// Whether requests are accepted; cleared by [`FlushClient::close`].
    pub open: bool,
    /// Sequence number assigned to the most recent request.
    pub sent_seq: u64,
}

/// What becomes of a request that is to be sent.
pub enum SendStep<W: WalTypes> {
    /// The request is refused.
    Rejected { error: Error },
    /// Too much data is queued: try again once bytes have been released.
    Blocked { req: WorkerRequest<W> },
    /// The request, numbered, is to be put into the worker's queue. `reserved`
    /// bytes have been reserved for it.
    Send { request: SeqRequest<W>, reserved: usize },
}

/// The bytes that a request occupies while it is queued.
pub open spec fn reserved_for<W: WalTypes>(req: WorkerRequest<W>) -> usize {
    match req {
        WorkerRequest::Write(write) => write.data.len(),
        _ => 0,
    }
}

/// The bytes that are reserved for a request: none once the worker has
/// failed, because nobody would return them.
pub open spec fn to_reserve<W: WalTypes>(req: WorkerRequest<W>, state: WorkerState) -> usize {
    if state.failure is Some {
        0
    } else {
        reserved_for(req)
    }
}

/// The request has to wait until bytes are released.
pub open spec fn blocks<W: WalTypes>(req: WorkerRequest<W>, state: WorkerState) -> bool {
    state.failure is None && !state.queued_bytes.admits(reserved_for(req))
}

/// The state once a request that does not have to wait has its bytes
/// reserved.
pub open spec fn reserving<W: WalTypes>(req: WorkerRequest<W>, state: WorkerState) -> WorkerState {
    if state.failure is Some {
        state
    } else {
        WorkerState { queued_bytes: state.queued_bytes.acquired(reserved_for(req)), ..state }
    }
}

/// The state once the bytes that were reserved for a request have been
/// returned, because it could not be sent.
pub open spec fn unreserving(reserved: usize, state: WorkerState) -> WorkerState {
    if reserved <= state.queued_bytes.used {
        state.released(reserved)
    } else {
        WorkerState { queued_bytes: state.queued_bytes.cleared(), ..state }
    }
}

impl FlushClient {
    /// The outcome of waiting until everything that was sent has been
    /// processed, once there is one.
    pub open spec fn idle_outcome(self, state: WorkerState) -> Option<Result<(), Error>> {
        state.outcome(self.sent_seq)
    }

    /// The number that the next request gets.
    pub open spec fn next_seq(self) -> u64
        recommends
            self.sent_seq < u64::MAX,
    {
        (self.sent_seq + 1) as u64
    }

    /// The next request, numbered, as it is put into the queue at `now`.
    pub open spec fn stamped<W: WalTypes>(self, req: WorkerRequest<W>, now: u64) -> SeqRequest<W> {
        SeqRequest { seq: self.next_seq(), queued_at: now, req }
    }

    /// The client once the next request has been sent.
    pub open spec fn advanced(self) -> Self {
        FlushClient { sent_seq: self.next_seq(), ..self }
    }

    /// The client once it rejects further requests.
    pub open spec fn closed(self) -> Self {
        FlushClient { open: false, ..self }
    }

    /// Creates a client with no requests assigned.
    pub fn new() -> (r: Self)
        ensures
            r == (FlushClient { open: true, sent_seq: 0 }),
    {
        FlushClient { open: true, sent_seq: 0 }
    }

    /// Assigns the next sequence number to a request that is to be sent to
    /// the worker.
    ///
    /// The request's memory is reserved before it is queued, so a slow worker
    /// throttles the sender instead of letting queued data grow without
    /// bound. After a failure of the worker no memory is reserved and nobody
    /// has to wait: the worker returned what was reserved when it stopped, and
    /// returns nothing afterwards.
    pub fn send<W: WalTypes>(
        &mut self,
        req: WorkerRequest<W>,
        state: &mut WorkerState,
        now: u64,
    ) -> (r: SendStep<W>)
        requires
            old(self).open ==> old(self).sent_seq < u64::MAX,
        ensures
            if !old(self).open {
                &&& r matches SendStep::Rejected { error }
                &&& error.kind == ErrorKind::Other
                &&& error.message@ == "Failed to send request: WAL is shut down"@
                &&& *final(self) == *old(self)
                &&& *final(state) == *old(state)
            } else if blocks(req, *old(state)) {
                &&& r == (SendStep::Blocked { req })
                &&& *final(self) == *old(self)
                &&& *final(state) == *old(state)
            } else {
                let seq = (old(self).sent_seq + 1) as u64;
                &&& r == (SendStep::Send {
                    request: SeqRequest { seq, queued_at: now, req },
                    reserved: to_reserve(req, *old(state)),
                })
                &&& r->request == old(self).stamped(req, now)
                &&& *final(self) == (FlushClient { sent_seq: seq, ..*old(self) })
                &&& *final(self) == old(self).advanced()
                &&& *final(state) == reserving(req, *old(state))
            },
            old(state).well_formed() ==> final(state).well_formed(),
    {
        if !self.open {
            return SendStep::Rejected {
                error: Error::new(ErrorKind::Other, "Failed to send request: WAL is shut down"),
            };
        }
        let mut reserved: usize = 0;
        if state.failure.is_none() {
            reserved = match &req {
                WorkerRequest::Write(write) => write.data.len(),
                _ => 0,
            };
            if !state.queued_bytes.acquire(reserved) {
                return SendStep::Blocked { req };
            }
        }
        self.sent_seq = self.sent_seq + 1;
        let request = SeqRequest { seq: self.sent_seq, queued_at: now, req };
        SendStep::Send { request, reserved }
    }

    /// Deals with a request that could not be put into the worker's queue:
    /// returns its reserved bytes and the error for the sender.
    ///
    /// If the worker has stopped in between, the bytes have been returned
    /// already.
    pub fn send_failed(reserved: usize, reason: &str, state: &mut WorkerState) -> (r: Error)
        ensures
            r.kind == ErrorKind::Other,
            r.message@ == "Failed to send request: "@ + reason@,
            final(state).queued_bytes.used == if reserved <= old(state).queued_bytes.used {
                old(state).queued_bytes.used - reserved
            } else {
                0
            },
            final(state).queued_bytes.limit == old(state).queued_bytes.limit,
            final(state).done_seq == old(state).done_seq,
            final(state).failure == old(state).failure,
            *final(state) == unreserving(reserved, *old(state)),
            old(state).well_formed() ==> final(state).well_formed(),
    {
        if reserved <= state.queued_bytes.used {
            state.queued_bytes.release(reserved);
        } else {
            state.queued_bytes.release_all();
        }
        let mut message = String::from_str("Failed to send request: ");
        message.append(reason);
        Error { kind: ErrorKind::Other, message }
    }

    /// Rejects further requests and lets the worker stop once its queue is
    /// drained.
    pub fn close(&mut self)
        ensures
            *final(self) == (FlushClient { open: false, ..*old(self) }),
            *final(self) == old(self).closed(),
    {
        self.open = false;
    }

    /// Returns the outcome of waiting until the worker reaches the current
    /// sequence or reports failure; `None` means to wait longer.
    pub fn wait_idle(&self, state: &WorkerState) -> (r: Option<Result<(), Error>>)
        ensures
            r == state.outcome(self.sent_seq),
            r == self.idle_outcome(*state),
    {
        state.wait_for(self.sent_seq)
    }

    /// Returns the sequence number assigned to the most recent request.
    pub fn sent_seq(&self) -> (r: u64)
        ensures
            r == self.sent_seq,
    {
        self.sent_seq
    }

    /// Returns the highest sequence number completed by the worker.
    pub fn done_seq(&self, state: &WorkerState) -> (r: u64)
        ensures
            r == state.done_seq,
    {
        state.done_seq()
    }
}

/// Requests are numbered one after the other, from one on, and queued
/// unchanged with the time at which they are sent. Closing the client changes
/// no number.
pub proof fn law_requests_are_numbered_consecutively<W: WalTypes>(
    client: FlushClient,
    req: WorkerRequest<W>,
    now: u64,
)
    requires
        client.sent_seq < u64::MAX,
    ensures
        client.stamped(req, now).seq == client.sent_seq + 1,
        client.stamped(req, now).queued_at == now,
        client.stamped(req, now).req == req,
        client.advanced().sent_seq == client.sent_seq + 1,
        client.advanced().open == client.open,
        !client.closed().open,
        client.closed().sent_seq == client.sent_seq,
{
}

/// A request that could not be sent leaves the shared state as it was before.
/// If the worker has stopped in between, nothing is reserved, as before.
pub proof fn law_failed_send_leaves_no_trace<W: WalTypes>(
    req: WorkerRequest<W>,
    state: WorkerState,
    failure: Option<Error>,
)
    requires
        state.well_formed(),
        !blocks(req, state),
    ensures
        unreserving(to_reserve(req, state), reserving(req, state)) == state,
        unreserving(to_reserve(req, state), reserving(req, state).stopped(failure)) == reserving(
            req,
            state,
        ).stopped(failure),
{
}

/// Waiting for the worker to be idle ends well exactly when the latest request
/// has been completed.
pub proof fn law_idle_when_the_latest_request_is_completed(
    client: FlushClient,
    state: WorkerState,
)
    ensures
        client.idle_outcome(state) == Some(Ok::<(), Error>(())) <==> client.sent_seq
            <= state.done_seq,
        client.idle_outcome(state) is None <==> client.sent_seq > state.done_seq
            && state.failure is None,
        client.sent_seq > state.done_seq && state.failure is Some ==> client.idle_outcome(state)
            == Some(Err::<(), Error>(state.failure->0)),
{
}

/// A write request has to wait only if the worker has not failed, something
/// is reserved, and its data does not fit under the limit besides. If it need
/// not wait, as many bytes are reserved as it has, and nothing else changes.
pub proof fn law_only_a_full_queue_blocks<W: WalTypes>(
    req: WorkerRequest<W>,
    data: Seq<u8>,
    state: WorkerState,
)
    requires
        match req {
            WorkerRequest::Write(write) => data == write.data@,
            _ => data == Seq::<u8>::empty(),
        },
    ensures
        blocks(req, state) <==> {
            &&& state.failure is None
            &&& state.queued_bytes.used > 0
            &&& state.queued_bytes.used + data.len() > state.queued_bytes.limit
        },
        !blocks(req, state) && state.failure is None ==> {
            &&& to_reserve(req, state) == data.len()
            &&& reserving(req, state).queued_bytes.used == state.queued_bytes.used + data.len()
        },
        reserving(req, state).queued_bytes.limit == state.queued_bytes.limit,
        reserving(req, state).done_seq == state.done_seq,
        reserving(req, state).failure == state.failure,
        state.failure is Some ==> reserving(req, state) == state,
{
    if let WorkerRequest::Write(write) = req {
        assert(write.data.len() == write.data@.len());
    }
}

/// The bytes reserved for a request are those that the worker returns for it.
pub proof fn law_reserved_bytes_are_accounted<W: WalTypes>(req: WorkerRequest<W>)
    ensures
        reserved_for(req) == crate::wal::accounting::brought(req).bytes,
{
}

/// Once the worker has failed, nothing is reserved, and no request has to
/// wait or has anything reserved for it.
pub proof fn law_nobody_waits_after_a_failure<W: WalTypes>(
    state: WorkerState,
    req: WorkerRequest<W>,
)
    requires
        state.well_formed(),
        state.failure is Some,
    ensures
        state.queued_bytes.used == 0,
        !blocks(req, state),
        to_reserve(req, state) == 0,
        reserving(req, state) == state,
{
}

} // verus!
