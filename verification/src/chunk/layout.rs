//! Where the records of a chunk are.

use crate::chunk::chunk_id::ChunkId;
use crate::types::Segment;
use vstd::prelude::*;

verus! {

/// A chunk: its file, and the global offsets of its records.
#[derive(Debug)]
pub struct Chunk<F> {
    /// The chunk's file.
    pub f: F,
    /// The offsets at which the records start, followed by the offset after
    /// the last record. The first one is the start of the chunk.
    pub global_offsets: Vec<u64>,
    /// The size of the file before an incomplete record was cut off.
    pub truncated: Option<u64>,
}

impl<F: Clone> Clone for Chunk<F> {
    /// Returns the same chunk, on a clone of the file handle.
    fn clone(&self) -> (r: Self)
        ensures
            cloned(self.f, r.f),
            r.global_offsets@ == self.global_offsets@,
            r.truncated == self.truncated,
    {
        let global_offsets = self.global_offsets.clone();
        assert(global_offsets@ =~= self.global_offsets@);
        Chunk { f: self.f.clone(), global_offsets, truncated: self.truncated }
    }
}

impl<F> Chunk<F> {
    /// The records follow one another.
    pub open spec fn well_formed(self) -> bool {
        &&& self.global_offsets@.len() > 0
        &&& forall|i: int, j: int|
            0 <= i <= j < self.global_offsets@.len() ==> self.global_offsets@[i]
                <= self.global_offsets@[j]
    }

    /// The global offset at which the chunk starts.
    pub open spec fn start(self) -> u64 {
        self.global_offsets@[0]
    }

    /// The global offset after the last record.
    pub open spec fn end(self) -> u64 {
        self.global_offsets@.last()
    }

    /// How many records there are.
    pub open spec fn count(self) -> int {
        self.global_offsets@.len() - 1
    }

    /// The segment of the record at `index`.
    pub open spec fn segment(self, index: int) -> Segment {
        Segment {
            offset: self.global_offsets@[index],
            size: (self.global_offsets@[index + 1] - self.global_offsets@[index]) as u64,
        }
    }

    /// The position in the chunk's file at which a segment starts.
    pub open spec fn place(self, segment: Segment) -> int {
        segment.offset - self.start()
    }

    /// Creates a chunk without records.
    pub fn new(chunk_id: ChunkId, f: F) -> (r: Self)
        ensures
            r.well_formed(),
            r.f == f,
            r.global_offsets@ == seq![chunk_id.0],
            r.truncated is None,
    {
        let mut global_offsets: Vec<u64> = Vec::new();
        global_offsets.push(*chunk_id);
        Chunk { f, global_offsets, truncated: None }
    }

    /// Adds a record of `size` bytes after the last one.
    pub fn append_record_size(&mut self, size: u64)
        requires
            old(self).well_formed(),
            old(self).end() + size <= u64::MAX,
        ensures
            final(self).well_formed(),
            final(self).global_offsets@ == old(self).global_offsets@.push(
                (old(self).end() + size) as u64,
            ),
            final(self).f == old(self).f,
            final(self).truncated == old(self).truncated,
    {
        let end: u64 = self.global_end();
        self.global_offsets.push(end + size);
    }

    /// Returns the segment of the last record.
    pub fn last_segment(&self) -> (r: Segment)
        requires
            self.well_formed(),
            self.count() > 0,
        ensures
            r == self.segment(self.count() - 1),
            r.offset + r.size == self.end(),
    {
        self.record_segment(self.global_offsets.len() - 2)
    }

    /// Returns the segment of the record at `index`.
    pub fn record_segment(&self, index: usize) -> (r: Segment)
        requires
            self.well_formed(),
            index < self.count(),
        ensures
            r == self.segment(index as int),
            r.offset + r.size == self.global_offsets@[index + 1],
    {
        assert(index + 1 < self.global_offsets.len());
        let offset = self.global_offsets[index];
        let end = self.global_offsets[index + 1];
        Segment { offset, size: end - offset }
    }

    /// Returns how many records there are.
    pub fn records_count(&self) -> (r: usize)
        requires
            self.well_formed(),
        ensures
            r == self.count(),
    {
        self.global_offsets.len() - 1
    }

    /// Returns the global offset at which the chunk starts.
    pub fn global_start(&self) -> (r: u64)
        requires
            self.well_formed(),
        ensures
            r == self.start(),
    {
        self.global_offsets[0]
    }

    /// Returns the global offset after the last record.
    pub fn global_end(&self) -> (r: u64)
        requires
            self.well_formed(),
        ensures
            r == self.end(),
    {
        self.global_offsets[self.global_offsets.len() - 1]
    }

    /// Returns the chunk's identifier.
    pub fn chunk_id(&self) -> (r: ChunkId)
        requires
            self.well_formed(),
        ensures
            r == ChunkId(self.start()),
    {
        ChunkId(self.global_start())
    }

    /// Returns the size of the file before an incomplete record was cut off,
    /// if one was.
    pub fn truncated_file_size(&self) -> (r: Option<u64>)
        ensures
            r == self.truncated,
    {
        self.truncated
    }

    /// Returns the position in the chunk's file at which a segment starts.
    pub fn position(&self, segment: Segment) -> (r: u64)
        requires
            self.well_formed(),
            self.start() <= segment.offset,
        ensures
            r == segment.offset - self.start(),
            r == self.place(segment),
    {
        segment.offset - self.global_start()
    }
}

/// Every record starts where the one before it ends; the first one starts
/// with the chunk, the last one ends with it.
pub proof fn law_segments_are_adjacent<F>(chunk: Chunk<F>, index: int)
    requires
        chunk.well_formed(),
        0 <= index < chunk.count(),
    ensures
        ({
            let segment = chunk.segment(index);
            &&& index == 0 ==> segment.offset == chunk.start()
            &&& segment.offset + segment.size == if index + 1 < chunk.count() {
                chunk.segment(index + 1).offset
            } else {
                chunk.end()
            }
        }),
{
    assert(chunk.global_offsets@[index] <= chunk.global_offsets@[index + 1]);
}

/// The bytes of a chunk that holds `records`, given by their encodings.
pub open spec fn image(records: Seq<Seq<u8>>) -> Seq<u8>
    decreases records.len(),
{
    if records.len() == 0 {
        Seq::empty()
    } else {
        image(records.drop_last()) + records.last()
    }
}

impl<F> Chunk<F> {
    /// The chunk holds `records`, given by their encodings: each one lies
    /// where its offset says.
    pub open spec fn lays_out(self, records: Seq<Seq<u8>>) -> bool {
        &&& self.well_formed()
        &&& self.count() == records.len()
        &&& forall|i: int|
            0 <= i <= records.len() ==> #[trigger] self.global_offsets@[i] == self.start() + image(
                records.take(i),
            ).len()
    }
}

/// A chunk without records holds no records.
pub proof fn law_new_chunk_is_empty<F>(chunk: Chunk<F>)
    requires
        chunk.global_offsets@.len() == 1,
    ensures
        chunk.lays_out(Seq::empty()),
        image(Seq::empty()) == Seq::<u8>::empty(),
{
    assert(Seq::<Seq<u8>>::empty().take(0) =~= Seq::empty());
}

/// A record that is appended with its true size comes after the records
/// before it.
pub proof fn law_appended_record_is_laid_out<F>(
    before: Chunk<F>,
    after: Chunk<F>,
    records: Seq<Seq<u8>>,
    encoded: Seq<u8>,
)
    requires
        before.lays_out(records),
        before.end() + encoded.len() <= u64::MAX,
        after.global_offsets@ == before.global_offsets@.push(
            (before.end() + encoded.len()) as u64,
        ),
    ensures
        after.lays_out(records.push(encoded)),
        image(records.push(encoded)) == image(records) + encoded,
{
    let all = records.push(encoded);
    assert(all.drop_last() =~= records);
    assert(records.take(records.len() as int) =~= records);
    assert(before.global_offsets@[records.len() as int] == before.end());
    assert forall|i: int| 0 <= i <= all.len() implies #[trigger] after.global_offsets@[i]
        == after.start() + image(all.take(i)).len() by {
        if i < all.len() {
            assert(all.take(i) =~= records.take(i));
            assert(after.global_offsets@[i] == before.global_offsets@[i]);
        } else {
            assert(all.take(i) =~= all);
        }
    }
    assert forall|i: int, j: int| 0 <= i <= j < after.global_offsets@.len() implies
        after.global_offsets@[i] <= after.global_offsets@[j] by {
        if j < before.global_offsets@.len() {
            assert(before.global_offsets@[i] <= before.global_offsets@[j]);
        } else if i < before.global_offsets@.len() {
            assert(before.global_offsets@[i] <= before.end());
        }
    }
}

proof fn lemma_image_take(records: Seq<Seq<u8>>, i: int)
    requires
        0 <= i <= records.len(),
    ensures
        image(records.take(i)).is_prefix_of(image(records)),
    decreases records.len() - i,
{
    if i < records.len() {
        lemma_image_take(records, i + 1);
        assert(records.take(i + 1).drop_last() =~= records.take(i));
        let (shorter, longer) = (image(records.take(i)), image(records.take(i + 1)));
        assert(shorter =~= longer.take(shorter.len() as int));
        assert(shorter =~= image(records).take(shorter.len() as int));
    } else {
        assert(records.take(i) =~= records);
        assert(image(records) =~= image(records).take(image(records).len() as int));
    }
}

/// A record's segment lies within the bytes of the chunk.
pub proof fn lemma_segment_lies_in_image<F>(chunk: Chunk<F>, records: Seq<Seq<u8>>, index: int)
    requires
        chunk.lays_out(records),
        0 <= index < records.len(),
    ensures
        ({
            let segment = chunk.segment(index);
            &&& chunk.start() <= segment.offset
            &&& segment.offset + segment.size - chunk.start() <= image(records).len()
        }),
{
    lemma_image_take(records, index + 1);
    assert(chunk.global_offsets@[index] <= chunk.global_offsets@[index + 1]);
    assert(chunk.global_offsets@[index + 1] == chunk.start() + image(
        records.take(index + 1),
    ).len());
}

/// Reading the segment of a record gives back the record: the bytes at its
/// position in the chunk's file are the bytes that were appended. This holds
/// of every record that is wholly in the file, even if the file ends before
/// the last record does, or goes on after it.
pub proof fn law_read_gives_back_what_was_appended<F>(
    chunk: Chunk<F>,
    records: Seq<Seq<u8>>,
    file: Seq<u8>,
    index: int,
)
    requires
        chunk.lays_out(records),
        file.is_prefix_of(image(records)) || image(records).is_prefix_of(file),
        0 <= index < records.len(),
        ({
            let segment = chunk.segment(index);
            segment.offset + segment.size - chunk.start() <= file.len()
        }),
    ensures
        ({
            let segment = chunk.segment(index);
            let position = segment.offset - chunk.start();
            &&& position >= 0
            &&& file.subrange(position, position + segment.size) == records[index]
        }),
{
    let before = image(records.take(index));
    let until = image(records.take(index + 1));
    assert(chunk.global_offsets@[index] == chunk.start() + before.len());
    assert(chunk.global_offsets@[index + 1] == chunk.start() + until.len());
    assert(records.take(index + 1).drop_last() =~= records.take(index));
    lemma_image_take(records, index + 1);
    let segment = chunk.segment(index);
    let position = segment.offset - chunk.start();
    assert(until == before + records[index]);
    let all = image(records);
    assert(until.len() <= file.len());
    assert forall|j: int| 0 <= j < until.len() implies #[trigger] file[j] == until[j] by {
        assert(until[j] == all.take(until.len() as int)[j]);
        if file.is_prefix_of(all) {
            assert(file[j] == all.take(file.len() as int)[j]);
        } else {
            assert(all[j] == file.take(all.len() as int)[j]);
        }
    }
    assert(file.subrange(position, position + segment.size) =~= records[index]);
}

} // verus!
