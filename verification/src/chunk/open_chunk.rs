//! The chunk to which records are appended.

use crate::chunk::chunk_id::ChunkId;
use crate::chunk::layout::Chunk;
use crate::errors::Error;
use crate::types::Segment;
use vstd::prelude::*;

verus! {

/// The chunk to which records are appended, and the encoded records that have
/// not been handed out yet.
#[derive(Debug)]
pub struct OpenChunk<F> {
    /// Encoded records.
    pub pending_data: Vec<u8>,
    /// The chunk.
    pub chunk: Chunk<F>,
}

/// A record has been appended with its true size: its bytes are pending after
/// those pending before, and `segment` is where it is, right after the last
/// record.
pub open spec fn appended<F>(
    before: OpenChunk<F>,
    after: OpenChunk<F>,
    encoded: Seq<u8>,
    segment: Segment,
) -> bool {
    &&& before.chunk.end() + encoded.len() <= u64::MAX
    &&& segment == Segment { offset: before.chunk.end(), size: encoded.len() as u64 }
    &&& after.pending_data@ == before.pending_data@ + encoded
    &&& after.chunk.f == before.chunk.f
    &&& after.chunk.truncated == before.chunk.truncated
    &&& after.chunk.global_offsets@ == before.chunk.global_offsets@.push(
        (before.chunk.end() + encoded.len()) as u64,
    )
}

/// The pending data has been handed out.
pub open spec fn taken<F>(before: OpenChunk<F>, after: OpenChunk<F>, data: Seq<u8>) -> bool {
    &&& data == before.pending_data@
    &&& after.pending_data@ == Seq::<u8>::empty()
    &&& after.chunk == before.chunk
}

/// `Vec::capacity`: how many bytes the vector can hold without growing.
/// Nothing is claimed of the number; it only serves as a hint.
#[verifier::external_body]
fn capacity_hint(data: &Vec<u8>) -> usize {
    data.capacity()
}

impl<F> OpenChunk<F> {
    /// The pending data is what lies between `handed_out` and the end of the
    /// chunk.
    pub open spec fn pending_from(self, handed_out: int) -> bool {
        handed_out + self.pending_data@.len() == self.chunk.end()
    }

    /// Creates a new open chunk from an existing chunk.
    pub fn new(chunk: Chunk<F>) -> (r: Self)
        ensures
            r.pending_data@ == Seq::<u8>::empty(),
            r.chunk == chunk,
            r.pending_from(chunk.end() as int),
    {
        OpenChunk { pending_data: Vec::new(), chunk }
    }

    /// Creates an open chunk without records on a file.
    pub fn from_file(chunk_id: ChunkId, f: F) -> (r: Result<Self, Error>)
        ensures
            r is Ok,
            r->Ok_0.pending_data@ == Seq::<u8>::empty(),
            r->Ok_0.chunk.well_formed(),
            r->Ok_0.chunk.f == f,
            r->Ok_0.chunk.global_offsets@ == seq![chunk_id.0],
            r->Ok_0.chunk.truncated is None,
            r->Ok_0.holds(Seq::empty(), 0),
    {
        proof {
            assert(Seq::<u8>::empty().skip(0) =~= Seq::empty());
            assert(Seq::<Seq<u8>>::empty().take(0) =~= Seq::empty());
        }
        Ok(Self::new(Chunk::new(chunk_id, f)))
    }

    /// Hands the encoded pending records to the caller.
    ///
    /// The replacement buffer keeps the capacity the previous one reached, so
    /// a steady batch size stops re-growing the buffer on every flush.
    pub fn take_pending_data(&mut self) -> (r: Vec<u8>)
        ensures
            taken(*old(self), *final(self), r@),
            final(self).pending_from(old(self).chunk.end() as int),
    {
        let mut data: Vec<u8> = Vec::with_capacity(capacity_hint(&self.pending_data));
        std::mem::swap(&mut data, &mut self.pending_data);
        data
    }

    /// Appends a record.
    ///
    /// `encoded` is what the record's encoder wrote, `outcome` what it
    /// returned: the size of the record, or an error. What the encoder wrote
    /// stays in the pending data either way.
    pub fn append_record(&mut self, encoded: &[u8], outcome: Result<usize, Error>) -> (r: Result<
        Segment,
        Error,
    >)
        requires
            old(self).chunk.well_formed(),
            outcome matches Ok(size) ==> old(self).chunk.end() + size <= u64::MAX,
        ensures
            final(self).chunk.well_formed(),
            final(self).pending_data@ == old(self).pending_data@ + encoded@,
            final(self).chunk.f == old(self).chunk.f,
            final(self).chunk.truncated == old(self).chunk.truncated,
            match outcome {
                Ok(size) => {
                    &&& r == Ok::<Segment, Error>(
                        Segment { offset: old(self).chunk.end(), size: size as u64 },
                    )
                    &&& final(self).chunk.global_offsets@ == old(self).chunk.global_offsets@.push(
                        (old(self).chunk.end() + size) as u64,
                    )
                },
                Err(error) => {
                    &&& r == Err::<Segment, Error>(error)
                    &&& final(self).chunk == old(self).chunk
                },
            },
            outcome matches Ok(size) && size == encoded@.len() ==> {
                &&& appended(*old(self), *final(self), encoded@, r->Ok_0)
                &&& forall|handed_out: int|
                    old(self).pending_from(handed_out) ==> final(self).pending_from(handed_out)
            },
    {
        self.pending_data.extend_from_slice(encoded);
        assert(self.pending_data@ =~= old(self).pending_data@ + encoded@);
        match outcome {
            Ok(size) => {
                self.chunk.append_record_size(size as u64);
                Ok(self.chunk.last_segment())
            },
            Err(error) => Err(error),
        }
    }

    /// Create a new open chunk and append an initial record to it.
    /// But does not fsync it.
    ///
    /// Returns the chunk, with nothing pending, and the bytes to write to its
    /// file.
    pub fn create_with_initial_record(
        chunk_id: ChunkId,
        f: F,
        encoded: &[u8],
        outcome: Result<usize, Error>,
    ) -> (r: Result<(Self, Vec<u8>), Error>)
        requires
            outcome matches Ok(size) ==> chunk_id.0 + size <= u64::MAX,
        ensures
            match outcome {
                Ok(size) => {
                    &&& r matches Ok((open, leading))
                    &&& leading@ == encoded@
                    &&& open.pending_data@ == Seq::<u8>::empty()
                    &&& open.chunk.well_formed()
                    &&& open.chunk.f == f
                    &&& open.chunk.global_offsets@ == seq![
                        chunk_id.0,
                        (chunk_id.0 + size) as u64,
                    ]
                    &&& open.chunk.truncated is None
                    &&& size == encoded@.len() ==> open.holds(seq![encoded@], size as int)
                },
                Err(error) => r matches Err(e) && e == error,
            },
    {
        let mut open = Self::new(Chunk::new(chunk_id, f));
        let ghost empty = open;
        match open.append_record(encoded, outcome) {
            Ok(segment) => {
                let ghost full = open;
                let leading = open.take_pending_data();
                proof {
                    if segment.size == encoded@.len() {
                        lemma_first_record(empty, full, open, encoded@, segment, leading@);
                    }
                }
                Ok((open, leading))
            },
            Err(error) => Err(error),
        }
    }
}

impl<F> OpenChunk<F> {
    /// The chunk holds `records`, of whose bytes the first `handed_out` have
    /// been handed out and the rest is pending.
    pub open spec fn holds(self, records: Seq<Seq<u8>>, handed_out: int) -> bool {
        &&& self.chunk.lays_out(records)
        &&& 0 <= handed_out <= crate::chunk::layout::image(records).len()
        &&& self.pending_data@ == crate::chunk::layout::image(records).skip(handed_out)
    }
}

/// A record that is appended with its true size follows the records before
/// it, and its bytes become pending.
pub proof fn law_append_adds_a_record<F>(
    before: OpenChunk<F>,
    after: OpenChunk<F>,
    records: Seq<Seq<u8>>,
    handed_out: int,
    encoded: Seq<u8>,
    segment: Segment,
)
    requires
        before.holds(records, handed_out),
        appended(before, after, encoded, segment),
    ensures
        after.holds(records.push(encoded), handed_out),
{
    crate::chunk::layout::law_appended_record_is_laid_out(
        before.chunk,
        after.chunk,
        records,
        encoded,
    );
    let image = crate::chunk::layout::image(records);
    assert((image + encoded).skip(handed_out) =~= image.skip(handed_out) + encoded);
}

proof fn lemma_first_record<F>(
    empty: OpenChunk<F>,
    full: OpenChunk<F>,
    open: OpenChunk<F>,
    encoded: Seq<u8>,
    segment: Segment,
    leading: Seq<u8>,
)
    requires
        empty.chunk.global_offsets@.len() == 1,
        empty.pending_data@ == Seq::<u8>::empty(),
        appended(empty, full, encoded, segment),
        taken(full, open, leading),
    ensures
        open.holds(seq![encoded], encoded.len() as int),
{
    let none = Seq::<Seq<u8>>::empty();
    crate::chunk::layout::law_new_chunk_is_empty(empty.chunk);
    assert(Seq::<u8>::empty().skip(0) =~= Seq::empty());
    law_append_adds_a_record(empty, full, none, 0, encoded, segment);
    assert(none.push(encoded) =~= seq![encoded]);
    law_taken_data_continues(full, open, seq![encoded], 0, leading);
    assert(seq![encoded].drop_last() =~= none);
    assert(crate::chunk::layout::image(none) + encoded =~= encoded);
}

/// What is handed out continues what was handed out before: together it is
/// what the chunk holds, in order, and nothing is handed out twice.
pub proof fn law_taken_data_continues<F>(
    before: OpenChunk<F>,
    after: OpenChunk<F>,
    records: Seq<Seq<u8>>,
    handed_out: int,
    data: Seq<u8>,
)
    requires
        before.holds(records, handed_out),
        taken(before, after, data),
    ensures
        ({
            let image = crate::chunk::layout::image(records);
            &&& image.take(handed_out) + data == image
            &&& after.holds(records, image.len() as int)
        }),
{
    let image = crate::chunk::layout::image(records);
    assert(image.take(handed_out) + data =~= image);
    assert(image.skip(image.len() as int) =~= Seq::empty());
}

/// Records are appended one after the other: `opens` is the chunk before the
/// first of them and after each, `segments` where they are.
pub open spec fn all_appended<F>(
    opens: Seq<OpenChunk<F>>,
    encodings: Seq<Seq<u8>>,
    segments: Seq<Segment>,
) -> bool {
    &&& opens.len() == encodings.len() + 1
    &&& segments.len() == encodings.len()
    &&& forall|i: int|
        0 <= i < encodings.len() ==> appended(
            opens[i],
            opens[i + 1],
            #[trigger] encodings[i],
            segments[i],
        )
}

/// The sizes of segments together.
pub open spec fn total_size(segments: Seq<Segment>) -> nat
    decreases segments.len(),
{
    if segments.len() == 0 {
        0
    } else {
        total_size(segments.drop_last()) + segments.last().size as nat
    }
}

proof fn lemma_appended_records<F>(
    opens: Seq<OpenChunk<F>>,
    encodings: Seq<Seq<u8>>,
    segments: Seq<Segment>,
    n: nat,
)
    requires
        all_appended(opens, encodings, segments),
        n <= encodings.len(),
    ensures
        ({
            let data = crate::chunk::layout::image(encodings.take(n as int));
            &&& opens[n as int].pending_data@ == opens[0].pending_data@ + data
            &&& opens[n as int].chunk.end() == opens[0].chunk.end() + data.len()
            &&& opens[n as int].chunk.f == opens[0].chunk.f
            &&& total_size(segments.take(n as int)) == data.len()
        }),
    decreases n,
{
    if n == 0 {
        assert(opens[0].pending_data@ + Seq::<u8>::empty() =~= opens[0].pending_data@);
    } else {
        let i = n - 1;
        lemma_appended_records(opens, encodings, segments, i as nat);
        assert(appended(opens[i], opens[i + 1], encodings[i], segments[i]));
        assert(encodings.take(n as int).drop_last() =~= encodings.take(i));
        assert(segments.take(n as int).drop_last() =~= segments.take(i));
        let before = crate::chunk::layout::image(encodings.take(i));
        assert(opens[0].pending_data@ + (before + encodings[i]) =~= opens[0].pending_data@ + before
            + encodings[i]);
    }
}

/// The segments of records that are appended one after the other tile the
/// log: the first one starts where the chunk ended before, each further one
/// where the one before it ends, and together they are as long as the data
/// that has become pending.
pub proof fn law_appended_segments_tile<F>(
    opens: Seq<OpenChunk<F>>,
    encodings: Seq<Seq<u8>>,
    segments: Seq<Segment>,
)
    requires
        all_appended(opens, encodings, segments),
    ensures
        segments.len() > 0 ==> segments[0].offset == opens[0].chunk.end(),
        forall|i: int|
            0 < i < segments.len() ==> (#[trigger] segments[i]).offset == segments[i - 1].offset
                + segments[i - 1].size,
        opens[0].pending_data@.len() + total_size(segments) == opens.last().pending_data@.len(),
{
    if segments.len() > 0 {
        assert(appended(opens[0], opens[1], encodings[0], segments[0]));
    }
    assert forall|i: int| 0 < i < segments.len() implies (#[trigger] segments[i]).offset
        == segments[i - 1].offset + segments[i - 1].size by {
        assert(appended(opens[i - 1], opens[i - 1 + 1], encodings[i - 1], segments[i - 1]));
        assert(appended(opens[i], opens[i + 1], encodings[i], segments[i]));
    }
    lemma_appended_records(opens, encodings, segments, encodings.len());
    assert(segments.take(segments.len() as int) =~= segments);
}

/// What is handed out are the encodings of all records appended since the
/// data was last handed out, in the order they were appended. Handing out
/// again gives nothing, and neither changes the chunk.
pub proof fn law_all_appended_data_is_taken<F>(
    opens: Seq<OpenChunk<F>>,
    encodings: Seq<Seq<u8>>,
    segments: Seq<Segment>,
    after: OpenChunk<F>,
    data: Seq<u8>,
    again: OpenChunk<F>,
    more: Seq<u8>,
)
    requires
        all_appended(opens, encodings, segments),
        opens[0].pending_data@ == Seq::<u8>::empty(),
        taken(opens.last(), after, data),
        taken(after, again, more),
    ensures
        data == crate::chunk::layout::image(encodings),
        more == Seq::<u8>::empty(),
        after.chunk == opens.last().chunk,
        again.chunk == opens.last().chunk,
{
    lemma_appended_records(opens, encodings, segments, encodings.len());
    assert(encodings.take(encodings.len() as int) =~= encodings);
    assert(Seq::<u8>::empty() + crate::chunk::layout::image(encodings)
        =~= crate::chunk::layout::image(encodings));
}

} // verus!
