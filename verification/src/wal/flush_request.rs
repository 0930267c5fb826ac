//! Requests to the flush worker.

use crate::chunk::chunk_id::ChunkId;
use crate::num::format_u64;
use crate::text::append_bool;
use crate::text::debug_str;
use crate::types::WalTypes;
use crate::wal::file_persisted::ChunkPersistedCallback;
use vstd::prelude::*;
use vstd::string::StringExecFns;

verus! {

/// A `WorkerRequest` tagged with a monotonically increasing sequence number.
///
/// The sender assigns an incrementing `seq` to every request it sends. After
/// processing a request, the flush worker reports the highest completed seq,
/// allowing the sender to wait until all sent requests have been processed.
pub struct SeqRequest<W: WalTypes> {
    /// Position in the order of requests.
    pub seq: u64,
    /// When the request was queued, in nanoseconds.
    pub queued_at: u64,
    /// The request.
    pub req: WorkerRequest<W>,
}

/// Asks the flush worker to append data to the log.
pub struct WriteRequest<W: WalTypes> {
    /// Global offset after the last byte of `data`.
    pub upto_offset: u64,
    /// The bytes to append.
    pub data: Vec<u8>,
    /// Whether the data has to be durable before the request is answered.
    pub sync: bool,
    /// Told the outcome.
    pub callback: Option<W::Callback>,
}

/// Sync progress of a chunk file.
#[derive(Debug, Clone, PartialEq, Eq)]
pub struct FlushStat {
    /// Global offset at which the chunk starts.
    pub starting_offset: u64,
    /// Offset passed to the latest successful sync.
    pub sync_id: u64,
    /// Inode number of the chunk file.
    pub ino: u64,
}

impl FlushStat {
    /// Returns where the chunk starts and how far it has been synced.
    pub fn offset_sync_id(&self) -> (r: (u64, u64))
        ensures
            r == (self.starting_offset, self.sync_id),
    {
        (self.starting_offset, self.sync_id)
    }
}

/// Asks the flush worker to materialize the file of a newly opened chunk.
///
/// When a full chunk is closed, the caller constructs the successor chunk's
/// in-memory state immediately but does not create its file. The worker,
/// processing its FIFO queue in order, first finishes and syncs all writes
/// belonging to the predecessor chunk, and only then creates the successor
/// file and writes its leading record. This guarantees by construction that
/// a chunk file never exists on disk while its predecessor is not fully
/// durable, which is what recovery relies on: it classifies a chunk as
/// closed purely by the existence of a successor file, and repairs a torn
/// tail only on the last chunk.
pub struct RollRequest<W: WalTypes> {
    /// Global offset at which the new chunk starts; equals the end offset of
    /// the predecessor chunk.
    pub starting_offset: u64,
    /// Filesystem path of the new chunk file.
    pub path: String,
    /// Encoded leading checkpoint record, written at the start of the new
    /// file when it is created.
    pub leading_bytes: Vec<u8>,
    /// Slot shared with the new chunk's in-memory state; the created file is
    /// published into it.
    pub file_slot: W::Slot,
    /// Persisted callback for the new chunk file.
    pub on_persisted: ChunkPersistedCallback<W>,
}

/// What the flush worker can be asked to do.
pub enum WorkerRequest<W: WalTypes> {
    /// Materialize the file of a newly opened chunk, after making its
    /// predecessor durable.
    Roll(RollRequest<W>),
    /// Remove chunks that have been purged.
    ///
    /// This job is done by the flush worker to ensure it is after the
    /// corresponding purge record is flushed.
    RemoveChunks { chunk_paths: Vec<String> },
    /// Write data, and optionally sync all files.
    Write(WriteRequest<W>),
    /// For debug, return a list of offset and sync id of all files.
    GetFlushStat { tx: W::StatReply },
}

impl<W: WalTypes> SeqRequest<W> {
    /// The request as shown in debugging output.
    pub open spec fn debug_text(self) -> Seq<char> {
        "SeqRequest { seq: "@ + crate::num::decimal(self.seq as nat) + ", queued_at: "@
            + crate::num::decimal(self.queued_at as nat) + ", .. }"@
    }

    /// Renders the request for debugging output.
    pub fn debug_string(&self) -> (r: String)
        ensures
            r@ == self.debug_text(),
    {
        let mut s = String::from_str("SeqRequest { seq: ");
        s.append(format_u64(self.seq).as_str());
        s.append(", queued_at: ");
        s.append(format_u64(self.queued_at).as_str());
        s.append(", .. }");
        s
    }
}

impl<W: WalTypes> WriteRequest<W> {
    /// The request as shown in debugging output.
    pub open spec fn debug_text(self) -> Seq<char> {
        "WriteRequest { upto_offset: "@ + crate::num::decimal(self.upto_offset as nat)
            + ", data_len: "@ + crate::num::decimal(self.data@.len()) + ", sync: "@
            + crate::text::bool_text(self.sync) + ", has_callback: "@ + crate::text::bool_text(
            self.callback is Some,
        ) + " }"@
    }

    /// Renders the request for debugging output.
    pub fn debug_string(&self) -> (r: String)
        ensures
            r@ == self.debug_text(),
    {
        let mut s = String::from_str("WriteRequest { upto_offset: ");
        s.append(format_u64(self.upto_offset).as_str());
        s.append(", data_len: ");
        s.append(format_u64(self.data.len() as u64).as_str());
        s.append(", sync: ");
        append_bool(&mut s, self.sync);
        s.append(", has_callback: ");
        append_bool(&mut s, self.callback.is_some());
        s.append(" }");
        s
    }
}

impl<W: WalTypes> RollRequest<W> {
    /// The request as shown in debugging output.
    pub open spec fn debug_text(self) -> Seq<char> {
        "RollRequest { starting_offset: "@ + ChunkId(self.starting_offset).debug_text()
            + ", path: "@ + crate::text::debug_text(self.path@) + ", leading_bytes_len: "@
            + crate::num::decimal(self.leading_bytes@.len()) + ", .. }"@
    }

    /// Renders the request for debugging output.
    pub fn debug_string(&self) -> (r: String)
        ensures
            r@ == self.debug_text(),
    {
        let mut s = String::from_str("RollRequest { starting_offset: ");
        s.append(ChunkId(self.starting_offset).debug_string().as_str());
        s.append(", path: ");
        s.append(debug_str(self.path.as_str()).as_str());
        s.append(", leading_bytes_len: ");
        s.append(format_u64(self.leading_bytes.len() as u64).as_str());
        s.append(", .. }");
        s
    }
}

/// Strings as shown in debugging output, separated by commas.
pub open spec fn joined_text(strings: Seq<String>) -> Seq<char>
    decreases strings.len(),
{
    if strings.len() == 0 {
        Seq::empty()
    } else if strings.len() == 1 {
        crate::text::debug_text(strings[0]@)
    } else {
        joined_text(strings.drop_last()) + ", "@ + crate::text::debug_text(strings.last()@)
    }
}

/// Renders strings for debugging output, separated by commas.
fn join_debug(strings: &Vec<String>) -> (r: String)
    ensures
        r@ == joined_text(strings@),
{
    let mut s = String::new();
    let mut i: usize = 0;
    while i < strings.len()
        invariant
            i <= strings@.len(),
            s@ == joined_text(strings@.take(i as int)),
        decreases strings.len() - i,
    {
        assert(strings@.take(i + 1).drop_last() =~= strings@.take(i as int));
        let ghost before = s@;
        if i > 0 {
            s.append(", ");
        }
        s.append(debug_str(strings[i].as_str()).as_str());
        proof {
            let text = crate::text::debug_text(strings@[i as int]@);
            if i == 0 {
                assert(before + text =~= text);
            }
        }
        i = i + 1;
    }
    assert(strings@.take(i as int) =~= strings@);
    s
}

impl<W: WalTypes> WorkerRequest<W> {
    /// The request as shown in debugging output.
    pub open spec fn debug_text(self) -> Seq<char> {
        match self {
            WorkerRequest::Roll(roll) => "Roll("@ + roll.debug_text() + ")"@,
            WorkerRequest::RemoveChunks { chunk_paths } => "RemoveChunks { chunk_paths: ["@
                + joined_text(chunk_paths@) + "] }"@,
            WorkerRequest::Write(write) => "Write("@ + write.debug_text() + ")"@,
            WorkerRequest::GetFlushStat { .. } => "GetFlushStat { .. }"@,
        }
    }

    /// Renders the request for debugging output.
    pub fn debug_string(&self) -> (r: String)
        ensures
            r@ == self.debug_text(),
    {
        match self {
            WorkerRequest::Roll(roll) => {
                let mut s = String::from_str("Roll(");
                s.append(roll.debug_string().as_str());
                s.append(")");
                s
            },
            WorkerRequest::RemoveChunks { chunk_paths } => {
                let mut s = String::from_str("RemoveChunks { chunk_paths: [");
                s.append(join_debug(chunk_paths).as_str());
                s.append("] }");
                s
            },
            WorkerRequest::Write(write) => {
                let mut s = String::from_str("Write(");
                s.append(write.debug_string().as_str());
                s.append(")");
                s
            },
            WorkerRequest::GetFlushStat { .. } => String::from_str("GetFlushStat { .. }"),
        }
    }
}

/// The debugging rendering of a write request shows where it ends, how much
/// data it has, whether it asks for a sync and whether it has a callback.
pub proof fn law_rendering_shows_the_write<W: WalTypes>(write: WriteRequest<W>) -> (shown: (
    Seq<char>,
    Seq<char>,
))
    ensures
        crate::num::shows(shown.0, write.upto_offset as nat),
        crate::num::shows(shown.1, write.data@.len()),
        write.debug_text() == "WriteRequest { upto_offset: "@ + shown.0 + ", data_len: "@ + shown.1
            + ", sync: "@ + (if write.sync {
            "true"@
        } else {
            "false"@
        }) + ", has_callback: "@ + (if write.callback is Some {
            "true"@
        } else {
            "false"@
        }) + " }"@,
{
    crate::num::law_decimal_text_denotes_the_number(write.upto_offset as nat);
    crate::num::law_decimal_text_denotes_the_number(write.data@.len());
    (crate::num::decimal(write.upto_offset as nat), crate::num::decimal(write.data@.len()))
}

/// The debugging renderings of other requests show what they ask for: a
/// numbered request its number and when it was queued, a new chunk where it
/// starts, its path and how many leading bytes it has, a removal every path.
pub proof fn law_renderings_show_the_request<W: WalTypes>(
    request: SeqRequest<W>,
    roll: RollRequest<W>,
    paths: Seq<String>,
    path: String,
) -> (shown: (Seq<char>, Seq<char>, Seq<char>))
    ensures
        crate::num::shows(shown.0, request.seq as nat),
        crate::num::shows(shown.1, request.queued_at as nat),
        crate::num::shows(shown.2, roll.leading_bytes@.len()),
        request.debug_text() == "SeqRequest { seq: "@ + shown.0 + ", queued_at: "@ + shown.1
            + ", .. }"@,
        roll.debug_text() == "RollRequest { starting_offset: "@ + ChunkId(
            roll.starting_offset,
        ).debug_text() + ", path: "@ + crate::text::debug_text(roll.path@)
            + ", leading_bytes_len: "@ + shown.2 + ", .. }"@,
        joined_text(Seq::empty()) == Seq::<char>::empty(),
        joined_text(paths.push(path)) == if paths.len() == 0 {
            crate::text::debug_text(path@)
        } else {
            joined_text(paths) + ", "@ + crate::text::debug_text(path@)
        },
{
    crate::num::law_decimal_text_denotes_the_number(request.seq as nat);
    crate::num::law_decimal_text_denotes_the_number(request.queued_at as nat);
    crate::num::law_decimal_text_denotes_the_number(roll.leading_bytes@.len());
    assert(paths.push(path).drop_last() =~= paths);
    (
        crate::num::decimal(request.seq as nat),
        crate::num::decimal(request.queued_at as nat),
        crate::num::decimal(roll.leading_bytes@.len()),
    )
}

} // verus!
