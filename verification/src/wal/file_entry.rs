//! The flush worker's record of a chunk file.

use crate::chunk::chunk_id::ChunkId;
use crate::num::format_u64;
use crate::types::WalTypes;
use crate::wal::file_persisted::ChunkPersistedCallback;
use std::sync::Arc;
use vstd::prelude::*;
use vstd::string::StringExecFns;

verus! {

/// A chunk file that the flush worker has to sync.
pub struct FileEntry<W: WalTypes> {
    /// Global offset at which the chunk starts.
    pub starting_offset: u64,
    /// The chunk file.
    pub f: Arc<W::File>,
    /// Called after this file has been successfully synced.
    ///
    /// Receives the file, its starting offset, and the synced offset.
    /// The callback may be called multiple times.
    pub on_persisted: ChunkPersistedCallback<W>,
    /// Offset passed to the latest successful sync; zero before the first.
    pub sync_id: u64,
}

impl<W: WalTypes> FileEntry<W> {
    /// Creates the entry of a file that has not been synced.
    pub fn new(
        starting_offset: u64,
        f: Arc<W::File>,
        on_persisted: ChunkPersistedCallback<W>,
    ) -> (r: Self)
        ensures
            r == (FileEntry::<W> { starting_offset, f, on_persisted, sync_id: 0 }),
    {
        FileEntry { starting_offset, f, on_persisted, sync_id: 0 }
    }

    /// The entry as shown to people.
    pub open spec fn text(self) -> Seq<char> {
        "FileEntry{ starting_offset: "@ + ChunkId(self.starting_offset).text() + ", sync_id: "@
            + crate::num::decimal(self.sync_id as nat) + " }"@
    }

    /// The entry as shown in debugging output.
    pub open spec fn debug_text(self) -> Seq<char> {
        "FileEntry { starting_offset: "@ + ChunkId(self.starting_offset).debug_text()
            + ", sync_id: "@ + crate::num::decimal(self.sync_id as nat) + " }"@
    }

    /// Renders the entry for people.
    pub fn to_string(&self) -> (r: String)
        ensures
            r@ == self.text(),
    {
        let mut s = String::from_str("FileEntry{ starting_offset: ");
        s.append(ChunkId(self.starting_offset).to_string().as_str());
        s.append(", sync_id: ");
        s.append(format_u64(self.sync_id).as_str());
        s.append(" }");
        s
    }

    /// Renders the entry for debugging output.
    pub fn debug_string(&self) -> (r: String)
        ensures
            r@ == self.debug_text(),
    {
        let mut s = String::from_str("FileEntry { starting_offset: ");
        s.append(ChunkId(self.starting_offset).debug_string().as_str());
        s.append(", sync_id: ");
        s.append(format_u64(self.sync_id).as_str());
        s.append(" }");
        s
    }
}

/// Both renderings of an entry show where its chunk starts, and how far it has
/// been synced.
pub proof fn law_renderings_show_the_entry<W: WalTypes>(entry: FileEntry<W>) -> (shown: Seq<char>)
    ensures
        crate::num::shows(shown, entry.sync_id as nat),
        entry.text() == "FileEntry{ starting_offset: "@ + ChunkId(entry.starting_offset).text()
            + ", sync_id: "@ + shown + " }"@,
        entry.debug_text() == "FileEntry { starting_offset: "@ + ChunkId(
            entry.starting_offset,
        ).debug_text() + ", sync_id: "@ + shown + " }"@,
{
    crate::num::law_decimal_text_denotes_the_number(entry.sync_id as nat);
    crate::num::decimal(entry.sync_id as nat)
}

} // verus!
