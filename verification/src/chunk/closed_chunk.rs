//! A chunk that takes no more records.

use crate::chunk::layout::Chunk;
use crate::types::WalTypes;
use std::sync::Arc;
use vstd::prelude::*;

verus! {

/// A chunk that takes no more records, and the state after its last record.
#[derive(Debug)]
pub struct ClosedChunk<W: WalTypes> {
    /// The chunk.
    pub chunk: Chunk<Arc<W::File>>,
    /// The state that the log's records lead to, up to the end of the chunk.
    pub state: Arc<W::Checkpoint>,
}

impl<W: WalTypes> ClosedChunk<W> {
    /// Creates a closed chunk.
    pub fn new(chunk: Chunk<Arc<W::File>>, state: Arc<W::Checkpoint>) -> (r: Self)
        ensures
            r.chunk == chunk,
            r.state == state,
    {
        ClosedChunk { chunk, state }
    }
}

impl<W: WalTypes> Clone for ClosedChunk<W> {
    /// Returns the same chunk, on the same file and with the same state.
    fn clone(&self) -> (r: Self)
        ensures
            r.chunk.f == self.chunk.f,
            r.chunk.global_offsets@ == self.chunk.global_offsets@,
            r.chunk.truncated == self.chunk.truncated,
            r.state == self.state,
    {
        let chunk = Chunk { f: self.chunk.f.clone(), ..self.chunk.clone() };
        ClosedChunk { chunk, state: self.state.clone() }
    }
}

} // verus!
