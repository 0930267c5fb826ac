//! A write request waiting in a batch.

use crate::types::WalTypes;
use crate::wal::flush_request::WriteRequest;
use vstd::prelude::*;

verus! {

/// A write request, with the time at which it was queued.
pub struct QueuedWrite<W: WalTypes> {
    /// When the request was queued, in nanoseconds.
    pub queued_at: u64,
    /// The request.
    pub write: WriteRequest<W>,
}

} // verus!
