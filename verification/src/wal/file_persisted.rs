//! Notification that a chunk file has been persisted.

use crate::chunk::chunk_id::ChunkId;
use crate::types::WalTypes;
use std::sync::Arc;
use vstd::prelude::*;
use vstd::string::StringExecFns;

verus! {

/// A chunk file has been synced.
pub struct ChunkPersisted<F> {
    /// The chunk file.
    pub file: Arc<F>,
    /// Global offset at which the chunk starts.
    pub starting_offset: u64,
    /// Global offset up to which the log is persisted.
    pub synced_offset: u64,
}

impl<F> ChunkPersisted<F> {
    /// The debugging rendering, with the file rendered as `file`.
    pub open spec fn debug_text(self, file: Seq<char>) -> Seq<char> {
        "ChunkPersisted { file: "@ + file + ", starting_offset: "@ + ChunkId(
            self.starting_offset,
        ).debug_text() + ", synced_offset: "@ + ChunkId(self.synced_offset).debug_text() + " }"@
    }

    /// Renders the event for debugging output. `file` is the rendering of the
    /// file.
    pub fn debug_string(&self, file: &str) -> (r: String)
        ensures
            r@ == self.debug_text(file@),
    {
        let mut s = String::from_str("ChunkPersisted { file: ");
        s.append(file);
        s.append(", starting_offset: ");
        s.append(ChunkId(self.starting_offset).debug_string().as_str());
        s.append(", synced_offset: ");
        s.append(ChunkId(self.synced_offset).debug_string().as_str());
        s.append(" }");
        s
    }
}

/// One invocation of a persisted callback: the function and its arguments.
pub struct PersistedCall<W: WalTypes> {
    /// The function to call.
    pub callback: Arc<W::PersistedFn>,
    /// Describes the sync.
    pub persisted: ChunkPersisted<W::File>,
    /// Caller-defined state associated with the persisted chunk.
    pub state: Option<Arc<W::Checkpoint>>,
}

/// What to call when a certain chunk file is persisted.
pub struct ChunkPersistedCallback<W: WalTypes> {
    /// The function to call.
    pub callback: Arc<W::PersistedFn>,
    /// State handed to the function on every call.
    pub prev_chunk_state: Option<Arc<W::Checkpoint>>,
}

impl<W: WalTypes> ChunkPersistedCallback<W> {
    /// Creates a callback that hands `prev_chunk_state` to every call.
    pub fn new(callback: Arc<W::PersistedFn>, prev_chunk_state: Option<Arc<W::Checkpoint>>) -> (r:
        Self)
        ensures
            r == (ChunkPersistedCallback::<W> { callback, prev_chunk_state }),
    {
        ChunkPersistedCallback { callback, prev_chunk_state }
    }

    /// The invocation owed for `persisted`.
    pub open spec fn invocation(self, persisted: ChunkPersisted<W::File>) -> PersistedCall<W> {
        PersistedCall { callback: self.callback, persisted, state: self.prev_chunk_state }
    }

    /// Returns the invocation owed for `persisted`.
    ///
    /// The callback keeps its state: it may be called any number of times.
    pub fn call(&self, persisted: ChunkPersisted<W::File>) -> (r: PersistedCall<W>)
        ensures
            r == self.invocation(persisted),
    {
        let state = match &self.prev_chunk_state {
            Some(state) => Some(state.clone()),
            None => None,
        };
        PersistedCall { callback: self.callback.clone(), persisted, state }
    }
}

} // verus!
