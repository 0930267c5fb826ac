//! Types shared by the modules of the log.

use std::fmt::Debug;
use vstd::prelude::*;

verus! {

/// The types a log is used with. The log moves values of these types around
/// and never looks into them; files and checkpoints can be shown when a
/// chunk is debugged.
pub trait WalTypes {
    /// State that a chunk's leading record captures.
    type Checkpoint: Debug;

    /// Told the outcome of a write request.
    type Callback;

    /// Called when a chunk file has been persisted.
    type PersistedFn;

    /// An open chunk file.
    type File: Debug;

    /// Shared handle of the slot in which a chunk's file is published.
    type Slot;

    /// Receives the answer to a request for flush statistics.
    type StatReply;
}

/// A range of bytes of the log, in global offsets.
#[derive(Debug, Clone, Copy, PartialEq, Eq)]
pub struct Segment {
    /// Global offset of the first byte.
    pub offset: u64,
    /// Number of bytes.
    pub size: u64,
}

impl Segment {
    /// Creates the segment of `size` bytes at `offset`.
    pub fn new(offset: u64, size: u64) -> (r: Self)
        ensures
            r == (Segment { offset, size }),
    {
        Segment { offset, size }
    }

    /// Returns the global offset of the first byte.
    pub fn offset(&self) -> (r: u64)
        ensures
            r == self.offset,
    {
        self.offset
    }

    /// Returns the number of bytes.
    pub fn size(&self) -> (r: u64)
        ensures
            r == self.size,
    {
        self.size
    }

    /// Returns the global offset after the last byte.
    pub fn end(&self) -> (r: u64)
        requires
            self.offset + self.size <= u64::MAX,
        ensures
            r == self.offset + self.size,
    {
        self.offset + self.size
    }
}

} // verus!
