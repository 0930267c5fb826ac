//! Batches of write requests.

use crate::types::WalTypes;
use crate::wal::flush_request::SeqRequest;
use crate::wal::flush_request::WorkerRequest;
use crate::wal::queued_write::QueuedWrite;
use vstd::prelude::*;

verus! {

/// Write requests that are written together, and the request that ended the
/// batch, if one did.
pub struct WriteBatch<W: WalTypes> {
    /// The write requests, in the order they were sent.
    pub writes: Vec<QueuedWrite<W>>,
    /// The highest sequence number among the write requests.
    pub max_seq: u64,
    /// The request other than a write that ended the batch.
    pub last_non_flush: Option<SeqRequest<W>>,
    /// How many write requests the batch takes.
    pub max_size: usize,
}

impl<W: WalTypes> WriteBatch<W> {
    /// Creates an empty batch.
    pub fn new(max_size: usize) -> (r: Self)
        ensures
            r.writes@ == Seq::<QueuedWrite<W>>::empty(),
            r.max_seq == 0,
            r.last_non_flush is None,
            r.max_size == max_size,
    {
        WriteBatch { writes: Vec::new(), max_seq: 0, last_non_flush: None, max_size }
    }

    /// Adds a request to the batch and returns whether it is a write.
    ///
    /// A write joins the batch; any other request is kept aside and ends it.
    pub fn push_seq_request(&mut self, seq_req: SeqRequest<W>) -> (r: bool)
        ensures
            r == (seq_req.req is Write),
            final(self).max_size == old(self).max_size,
            match seq_req.req {
                WorkerRequest::Write(write) => {
                    &&& final(self).writes@ == old(self).writes@.push(
                        QueuedWrite { queued_at: seq_req.queued_at, write },
                    )
                    &&& final(self).max_seq == if seq_req.seq > old(self).max_seq {
                        seq_req.seq
                    } else {
                        old(self).max_seq
                    }
                    &&& final(self).last_non_flush == old(self).last_non_flush
                },
                _ => {
                    &&& final(self).writes == old(self).writes
                    &&& final(self).max_seq == old(self).max_seq
                    &&& final(self).last_non_flush == Some(seq_req)
                },
            },
    {
        let SeqRequest { seq, queued_at, req } = seq_req;
        match req {
            WorkerRequest::Write(write) => {
                if seq > self.max_seq {
                    self.max_seq = seq;
                }
                self.writes.push(QueuedWrite { queued_at, write });
                true
            },
            req => {
                self.last_non_flush = Some(SeqRequest { seq, queued_at, req });
                false
            },
        }
    }
}

} // verus!
