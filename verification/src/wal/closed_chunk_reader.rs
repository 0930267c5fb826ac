//! Reading records of closed chunks.

use crate::chunk::chunk_id::ChunkId;
use crate::chunk::closed_chunk::ClosedChunk;
use crate::chunk::open_chunk::OpenChunk;
use crate::errors::Error;
use crate::types::Segment;
use crate::types::WalTypes;
use std::collections::BTreeMap;
use std::io::ErrorKind;
use std::sync::Arc;
use vstd::prelude::*;
use vstd::string::StringExecFns;

verus! {

/// Finds records in closed chunks.
#[derive(Debug, Clone)]
pub struct ClosedChunkReader<W: WalTypes> {
    /// The closed chunks, by the offsets at which they start.
    pub chunks: BTreeMap<u64, ClosedChunk<W>>,
}

/// Where a record is.
pub struct RecordLocation<'a, W: WalTypes> {
    /// The chunk that holds the record.
    pub closed: &'a ClosedChunk<W>,
    /// The record's segment.
    pub segment: Segment,
}

impl<W: WalTypes> RecordLocation<'_, W> {
    /// The record's bytes, if the chunk's file holds `file`.
    pub open spec fn bytes_in(self, file: Seq<u8>) -> Seq<u8> {
        let position = self.closed.chunk.place(self.segment);
        file.subrange(position, position + self.segment.size)
    }
}

impl<W: WalTypes> ClosedChunkReader<W> {
    /// What is found of the record at `segment` in the chunk `chunk_id`: the
    /// chunk, if the reader has it, and an error otherwise.
    pub open spec fn finds(
        self,
        chunk_id: ChunkId,
        segment: Segment,
        r: Result<RecordLocation<'_, W>, Error>,
    ) -> bool {
        match r {
            Ok(location) => {
                &&& self.chunks@.contains_key(chunk_id.0)
                &&& *location.closed == self.chunks@[chunk_id.0]
                &&& location.segment == segment
            },
            Err(e) => {
                &&& !self.chunks@.contains_key(chunk_id.0)
                &&& e.kind == ErrorKind::NotFound
                &&& e.message@ == "Chunk not found: "@ + chunk_id.text()
            },
        }
    }

    /// Creates a reader of `chunks`.
    pub fn new(chunks: BTreeMap<u64, ClosedChunk<W>>) -> (r: Self)
        ensures
            r.chunks == chunks,
    {
        ClosedChunkReader { chunks }
    }

    /// Returns where the record at `segment` in the chunk `chunk_id` is to be
    /// read.
    pub fn read_record(&self, chunk_id: ChunkId, segment: Segment) -> (r: Result<
        RecordLocation<'_, W>,
        Error,
    >)
        ensures
            self.finds(chunk_id, segment, r),
    {
        match self.chunks.get(&chunk_id.0) {
            Some(closed) => Ok(RecordLocation { closed, segment }),
            None => {
                let mut message = String::from_str("Chunk not found: ");
                message.append(chunk_id.to_string().as_str());
                Err(Error { kind: ErrorKind::NotFound, message })
            },
        }
    }
}

/// A record that was appended is read back: the segment that appending it gave
/// leads to the bytes it was encoded to, and decoding them gives the record.
///
/// `before` and `after` are the chunk before and after the record was appended
/// to `records`; `later` are the records that followed until it was closed. The
/// chunk's file holds the chunk's data at least as far as the record goes.
pub proof fn law_an_appended_record_is_read_back<W: WalTypes, R>(
    before: OpenChunk<Arc<W::File>>,
    after: OpenChunk<Arc<W::File>>,
    records: Seq<Seq<u8>>,
    handed_out: int,
    record: R,
    encode: spec_fn(R) -> Seq<u8>,
    decode: spec_fn(Seq<u8>) -> Option<R>,
    segment: Segment,
    later: Seq<Seq<u8>>,
    reader: ClosedChunkReader<W>,
    chunk_id: ChunkId,
    file: Seq<u8>,
    r: Result<RecordLocation<'_, W>, Error>,
)
    requires
        decode(encode(record)) == Some(record),
        before.holds(records, handed_out),
        crate::chunk::open_chunk::appended(before, after, encode(record), segment),
        reader.chunks@.contains_key(chunk_id.0),
        ({
            let chunk = reader.chunks@[chunk_id.0].chunk;
            let until = records.push(encode(record));
            let image = crate::chunk::layout::image(until + later);
            &&& chunk.start() == before.chunk.start()
            &&& chunk.lays_out(until + later)
            &&& file.is_prefix_of(image) || image.is_prefix_of(file)
            &&& crate::chunk::layout::image(until).len() <= file.len()
        }),
        reader.finds(chunk_id, segment, r),
    ensures
        r is Ok,
        r->Ok_0.bytes_in(file) == encode(record),
        decode(r->Ok_0.bytes_in(file)) == Some(record),
{
    let encoded = encode(record);
    let until = records.push(encoded);
    let all = until + later;
    let chunk = reader.chunks@[chunk_id.0].chunk;
    let index = records.len() as int;
    assert(all.take(index) =~= records);
    assert(all.take(index + 1) =~= until);
    assert(until.drop_last() =~= records);
    assert(records.take(index) =~= records);
    assert(before.chunk.global_offsets@[index] == before.chunk.end());
    assert(chunk.global_offsets@[index] == chunk.start() + crate::chunk::layout::image(
        records,
    ).len());
    assert(chunk.global_offsets@[index + 1] == chunk.start() + crate::chunk::layout::image(
        until,
    ).len());
    assert(chunk.segment(index) == segment);
    crate::chunk::layout::law_read_gives_back_what_was_appended(chunk, all, file, index);
}

/// A record is looked for in the chunk that is asked for, where it is said to
/// be; if the reader does not have that chunk, it says so, naming the chunk.
pub proof fn law_only_a_missing_chunk_is_not_found<W: WalTypes>(
    reader: ClosedChunkReader<W>,
    chunk_id: ChunkId,
    segment: Segment,
    r: Result<RecordLocation<'_, W>, Error>,
)
    requires
        reader.finds(chunk_id, segment, r),
    ensures
        r is Ok <==> reader.chunks@.contains_key(chunk_id.0),
        r matches Ok(location) ==> {
            &&& *location.closed == reader.chunks@[chunk_id.0]
            &&& location.segment == segment
        },
        r matches Err(e) ==> {
            &&& e.kind == ErrorKind::NotFound
            &&& e.message@ == "Chunk not found: "@ + chunk_id.text()
        },
{
}

} // verus!
