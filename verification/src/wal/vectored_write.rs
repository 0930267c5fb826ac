//! Writing the data of a batch with vectored writes.
//!
//! A vectored write takes a list of buffers and writes some prefix of their
//! concatenation. A [`WriteCursor`] tracks how far the data of a batch has
//! been written, and tells which buffers to offer next.

use crate::types::WalTypes;
use crate::wal::queued_write::QueuedWrite;
use vstd::prelude::*;

verus! {

/// How many write requests one vectored write covers at most.
///
/// The requests of a batch are written in groups of this many.
pub const MAX_VECTORED_WRITE_SLICES: usize = 1024;

/// The data of the write requests `i..j`, in order.
pub open spec fn data_between<W: WalTypes>(writes: Seq<QueuedWrite<W>>, i: int, j: int) -> Seq<u8>
    decreases j - i,
{
    if i >= j {
        Seq::empty()
    } else {
        writes[i].write.data@ + data_between(writes, i + 1, j)
    }
}

/// The data of a batch: what the write requests append to the log.
pub open spec fn batch_data<W: WalTypes>(writes: Seq<QueuedWrite<W>>) -> Seq<u8> {
    data_between(writes, 0, writes.len() as int)
}

/// The buffers of the write requests `i..j`: their data, the empty ones left
/// out.
pub open spec fn buffers_between<W: WalTypes>(writes: Seq<QueuedWrite<W>>, i: int, j: int) -> Seq<
    Seq<u8>,
>
    decreases j - i,
{
    if i >= j {
        Seq::empty()
    } else if writes[i].write.data@.len() == 0 {
        buffers_between(writes, i + 1, j)
    } else {
        seq![writes[i].write.data@] + buffers_between(writes, i + 1, j)
    }
}

/// The first write request from `i` on that has data; the number of requests
/// if none has.
pub open spec fn first_with_data<W: WalTypes>(writes: Seq<QueuedWrite<W>>, i: int) -> int
    decreases writes.len() - i,
{
    if i >= writes.len() {
        writes.len() as int
    } else if writes[i].write.data@.len() > 0 {
        i
    } else {
        first_with_data(writes, i + 1)
    }
}

/// The request and the position in its data that lie `bytes` bytes after the
/// start of request `i`, but not beyond the start of request `end`.
pub open spec fn locate<W: WalTypes>(
    writes: Seq<QueuedWrite<W>>,
    i: int,
    bytes: int,
    end: int,
) -> (int, int)
    decreases end - i,
{
    if i >= end {
        (first_with_data(writes, end), 0)
    } else if bytes < writes[i].write.data@.len() {
        (i, bytes)
    } else {
        locate(writes, i + 1, bytes - writes[i].write.data@.len(), end)
    }
}

/// What the buffers of a vectored write hold.
pub open spec fn buffer_views(buffers: Seq<&[u8]>) -> Seq<Seq<u8>> {
    Seq::new(buffers.len(), |k: int| buffers[k]@)
}

/// How far the data of a batch has been written.
///
/// Everything before the cursor has been written. The cursor stands at a byte
/// that is still to be written, or past the last write request.
#[derive(Debug, Clone, Copy, PartialEq, Eq)]
pub struct WriteCursor {
    /// The write request at which the cursor stands.
    pub index: usize,
    /// The position in that request's data.
    pub offset: usize,
}

impl WriteCursor {
    /// The cursor stands at a byte of the batch, or past its end.
    pub open spec fn valid<W: WalTypes>(self, writes: Seq<QueuedWrite<W>>) -> bool {
        &&& self.index <= writes.len()
        &&& self.index == writes.len() ==> self.offset == 0
        &&& self.index < writes.len() ==> self.offset < writes[self.index as int].write.data@.len()
    }

    /// The data that is still to be written.
    pub open spec fn remaining<W: WalTypes>(self, writes: Seq<QueuedWrite<W>>) -> Seq<u8> {
        data_between(writes, self.index as int, writes.len() as int).skip(self.offset as int)
    }

    /// The end of the group of write requests in which the cursor stands.
    pub open spec fn group_end<W: WalTypes>(self, writes: Seq<QueuedWrite<W>>) -> int {
        let end = (self.index / MAX_VECTORED_WRITE_SLICES + 1) * MAX_VECTORED_WRITE_SLICES;
        if end < writes.len() {
            end
        } else {
            writes.len() as int
        }
    }

    /// The data offered to the next vectored write: what remains of the group.
    pub open spec fn offered<W: WalTypes>(self, writes: Seq<QueuedWrite<W>>) -> Seq<u8> {
        data_between(writes, self.index as int, self.group_end(writes)).skip(self.offset as int)
    }

    /// The buffers offered to the next vectored write.
    pub open spec fn offered_buffers<W: WalTypes>(self, writes: Seq<QueuedWrite<W>>) -> Seq<
        Seq<u8>,
    > {
        seq![writes[self.index as int].write.data@.skip(self.offset as int)] + buffers_between(
            writes,
            self.index + 1,
            self.group_end(writes),
        )
    }

    /// Where the cursor stands once `n` more bytes have been written.
    pub open spec fn advanced<W: WalTypes>(self, writes: Seq<QueuedWrite<W>>, n: nat) -> (
        int,
        int,
    ) {
        locate(writes, self.index as int, self.offset + n, self.group_end(writes))
    }

    /// Returns the first write request from `from` on that has data.
    fn skip_empty<W: WalTypes>(writes: &Vec<QueuedWrite<W>>, from: usize) -> (r: usize)
        requires
            from <= writes@.len(),
        ensures
            r == first_with_data(writes@, from as int),
            from <= r <= writes@.len(),
            r < writes@.len() ==> writes@[r as int].write.data@.len() > 0,
            data_between(writes@, r as int, writes@.len() as int) == data_between(
                writes@,
                from as int,
                writes@.len() as int,
            ),
    {
        let mut i: usize = from;
        while i < writes.len() && writes[i].write.data.len() == 0
            invariant
                from <= i <= writes@.len(),
                first_with_data(writes@, i as int) == first_with_data(writes@, from as int),
                data_between(writes@, i as int, writes@.len() as int) == data_between(
                    writes@,
                    from as int,
                    writes@.len() as int,
                ),
            decreases writes.len() - i,
        {
            assert(data_between(writes@, i as int, writes@.len() as int) =~= data_between(
                writes@,
                i + 1,
                writes@.len() as int,
            ));
            i = i + 1;
        }
        i
    }

    /// Creates the cursor of a batch of which nothing has been written.
    pub fn start<W: WalTypes>(writes: &Vec<QueuedWrite<W>>) -> (r: Self)
        ensures
            r.valid(writes@),
            r.index == first_with_data(writes@, 0),
            r.offset == 0,
            r.remaining(writes@) == batch_data(writes@),
    {
        let index = Self::skip_empty(writes, 0);
        WriteCursor { index, offset: 0 }
    }

    /// Returns whether the whole batch has been written.
    pub fn is_done<W: WalTypes>(&self, writes: &Vec<QueuedWrite<W>>) -> (r: bool)
        requires
            self.valid(writes@),
        ensures
            r == (self.index == writes@.len()),
            r == (self.remaining(writes@).len() == 0),
    {
        self.index == writes.len()
    }

    /// Computes the end of the group in which the cursor stands.
    fn find_group_end<W: WalTypes>(&self, writes: &Vec<QueuedWrite<W>>) -> (r: usize)
        requires
            self.index < writes@.len(),
        ensures
            r == self.group_end(writes@),
            self.index < r <= writes@.len(),
            r - self.index <= MAX_VECTORED_WRITE_SLICES,
    {
        let start: usize = self.index - self.index % MAX_VECTORED_WRITE_SLICES;
        if writes.len() - start > MAX_VECTORED_WRITE_SLICES {
            start + MAX_VECTORED_WRITE_SLICES
        } else {
            writes.len()
        }
    }

    /// Returns the buffers to offer to the next vectored write.
    ///
    /// There is at least one, none is empty, and together they hold what
    /// remains of the group.
    pub fn slices<'a, W: WalTypes>(&self, writes: &'a Vec<QueuedWrite<W>>) -> (r: Vec<&'a [u8]>)
        requires
            self.valid(writes@),
            self.index < writes@.len(),
        ensures
            buffer_views(r@) == self.offered_buffers(writes@),
            1 <= r@.len() <= MAX_VECTORED_WRITE_SLICES,
            forall|k: int| 0 <= k < r@.len() ==> (#[trigger] r@[k])@.len() > 0,
    {
        let end = self.find_group_end(writes);
        let mut r: Vec<&'a [u8]> = Vec::new();
        let first = writes[self.index].write.data.as_slice();
        r.push(vstd::slice::slice_subrange(first, self.offset, first.len()));
        let mut i: usize = self.index + 1;
        assert(buffer_views(r@) + buffers_between(writes@, i as int, end as int)
            =~= self.offered_buffers(writes@));
        while i < end
            invariant
                self.valid(writes@),
                self.index < writes@.len(),
                self.index < i <= end <= writes@.len(),
                end == self.group_end(writes@),
                1 <= r@.len() <= i - self.index,
                forall|k: int| 0 <= k < r@.len() ==> (#[trigger] r@[k])@.len() > 0,
                buffer_views(r@) + buffers_between(writes@, i as int, end as int)
                    == self.offered_buffers(writes@),
            decreases end - i,
        {
            let data = writes[i].write.data.as_slice();
            if data.len() > 0 {
                let ghost before = r@;
                r.push(data);
                assert(buffer_views(r@) =~= buffer_views(before) + seq![data@]);
                assert(buffer_views(before) + (seq![data@] + buffers_between(
                    writes@,
                    i + 1,
                    end as int,
                )) =~= buffer_views(before) + seq![data@] + buffers_between(
                    writes@,
                    i + 1,
                    end as int,
                ));
            }
            i = i + 1;
        }
        assert(buffer_views(r@) + buffers_between(writes@, end as int, end as int) =~= buffer_views(
            r@,
        ));
        r
    }

    /// Moves the cursor past `n` bytes, or to the end of the offered data if
    /// that is less.
    pub fn advance<W: WalTypes>(&mut self, writes: &Vec<QueuedWrite<W>>, n: usize)
        requires
            old(self).valid(writes@),
            old(self).index < writes@.len(),
        ensures
            final(self).valid(writes@),
            (final(self).index as int, final(self).offset as int) == old(self).advanced(
                writes@,
                n as nat,
            ),
            final(self).remaining(writes@) == old(self).remaining(writes@).skip(
                if n <= old(self).offered(writes@).len() {
                    n as int
                } else {
                    old(self).offered(writes@).len() as int
                },
            ),
    {
        let ghost start = *self;
        let ghost len = writes@.len() as int;
        let end = self.find_group_end(writes);
        let mut i: usize = self.index;
        let mut p: usize = self.offset;
        let mut left: usize = n;
        proof {
            lemma_data_between_split(writes@, i as int, end as int, len);
        }
        while i < end && left >= writes[i].write.data.len() - p
            invariant
                start.valid(writes@),
                start.index < len,
                start.index <= i <= end <= len,
                len == writes@.len(),
                end == start.group_end(writes@),
                left <= n,
                i < end ==> p <= writes@[i as int].write.data@.len(),
                i == end ==> p == 0,
                locate(writes@, i as int, p + left, end as int) == start.advanced(
                    writes@,
                    n as nat,
                ),
                start.remaining(writes@).len() >= start.offered(writes@).len(),
                start.offered(writes@).len() == n - left + data_between(
                    writes@,
                    i as int,
                    end as int,
                ).len() - p,
                start.remaining(writes@).skip(n - left) == data_between(
                    writes@,
                    i as int,
                    len,
                ).skip(p as int),
            decreases end - i,
        {
            let size: usize = writes[i].write.data.len();
            proof {
                let rest = data_between(writes@, i as int, len);
                assert(rest == writes@[i as int].write.data@ + data_between(writes@, i + 1, len));
                assert(rest.skip(p as int).skip(size - p) =~= data_between(writes@, i + 1, len));
                assert(data_between(writes@, i + 1, len).skip(0) =~= data_between(
                    writes@,
                    i + 1,
                    len,
                ));
                assert(start.remaining(writes@).skip(n - left).skip(size - p)
                    =~= start.remaining(writes@).skip(n - left + size - p));
            }
            left = left - (size - p);
            p = 0;
            i = i + 1;
        }
        if i < end {
            self.index = i;
            self.offset = p + left;
            proof {
                assert(start.remaining(writes@).skip(n - left).skip(left as int)
                    =~= start.remaining(writes@).skip(n as int));
                assert(data_between(writes@, i as int, len).skip(p as int).skip(left as int)
                    =~= data_between(writes@, i as int, len).skip(p + left));
            }
        } else {
            let index = Self::skip_empty(writes, end);
            self.index = index;
            self.offset = 0;
        }
    }
}

/// The buffers of a range of requests hold its data.
proof fn lemma_buffers_hold_data<W: WalTypes>(writes: Seq<QueuedWrite<W>>, i: int, j: int)
    ensures
        buffers_between(writes, i, j).flatten() == data_between(writes, i, j),
    decreases j - i,
{
    if i < j {
        lemma_buffers_hold_data(writes, i + 1, j);
        let rest = buffers_between(writes, i + 1, j);
        let data = writes[i].write.data@;
        if data.len() == 0 {
            assert(data + data_between(writes, i + 1, j) =~= data_between(writes, i + 1, j));
        } else {
            assert((seq![data] + rest).drop_first() =~= rest);
            assert((seq![data] + rest).first() == data);
        }
    }
}

/// What is offered to a vectored write is exactly what remains of the group,
/// in order: nothing is skipped, repeated or reordered.
pub proof fn law_offered_buffers_hold_offered_data<W: WalTypes>(
    cursor: WriteCursor,
    writes: Seq<QueuedWrite<W>>,
)
    requires
        cursor.valid(writes),
        cursor.index < writes.len(),
    ensures
        cursor.offered_buffers(writes).flatten() == cursor.offered(writes),
{
    let end = cursor.group_end(writes);
    let data = writes[cursor.index as int].write.data@;
    let first = data.skip(cursor.offset as int);
    let rest = buffers_between(writes, cursor.index + 1, end);
    lemma_buffers_hold_data(writes, cursor.index + 1, end);
    assert((seq![first] + rest).drop_first() =~= rest);
    assert((seq![first] + rest).first() == first);
    assert(first + data_between(writes, cursor.index + 1, end) =~= (data + data_between(
        writes,
        cursor.index + 1,
        end,
    )).skip(cursor.offset as int));
}

/// The data of a range of requests is that of its two halves.
pub proof fn lemma_data_between_split<W: WalTypes>(
    writes: Seq<QueuedWrite<W>>,
    i: int,
    m: int,
    j: int,
)
    requires
        i <= m <= j,
    ensures
        data_between(writes, i, j) == data_between(writes, i, m) + data_between(writes, m, j),
    decreases m - i,
{
    if i < m {
        lemma_data_between_split(writes, i + 1, m, j);
        assert(writes[i].write.data@ + (data_between(writes, i + 1, m) + data_between(writes, m, j))
            =~= writes[i].write.data@ + data_between(writes, i + 1, m) + data_between(
            writes,
            m,
            j,
        ));
    } else {
        assert(data_between(writes, i, m) + data_between(writes, m, j) =~= data_between(
            writes,
            m,
            j,
        ));
    }
}

/// The data from a request on begins with the first request that has data.
pub proof fn lemma_first_with_data<W: WalTypes>(writes: Seq<QueuedWrite<W>>, i: int)
    requires
        0 <= i <= writes.len(),
    ensures
        ({
            let first = first_with_data(writes, i);
            &&& i <= first <= writes.len()
            &&& first < writes.len() ==> writes[first].write.data@.len() > 0
            &&& data_between(writes, first, writes.len() as int) == data_between(
                writes,
                i,
                writes.len() as int,
            )
        }),
    decreases writes.len() - i,
{
    if i < writes.len() && writes[i].write.data@.len() == 0 {
        lemma_first_with_data(writes, i + 1);
        assert(data_between(writes, i, writes.len() as int) =~= data_between(
            writes,
            i + 1,
            writes.len() as int,
        ));
    }
}

/// A request added to a batch adds its data at the end.
pub proof fn lemma_data_pushed<W: WalTypes>(writes: Seq<QueuedWrite<W>>, w: QueuedWrite<W>)
    ensures
        batch_data(writes.push(w)) == batch_data(writes) + w.write.data@,
{
    let len = writes.len() as int;
    lemma_data_between_split(writes.push(w), 0, len, len + 1);
    lemma_data_between_same(writes.push(w), writes, 0, len);
    assert(data_between(writes.push(w), len + 1, len + 1) =~= Seq::empty());
    assert(data_between(writes.push(w), len, len + 1) =~= w.write.data@);
}

/// The data of a range depends only on the requests in it.
proof fn lemma_data_between_same<W: WalTypes>(
    a: Seq<QueuedWrite<W>>,
    b: Seq<QueuedWrite<W>>,
    i: int,
    j: int,
)
    requires
        0 <= i,
        forall|k: int| i <= k < j ==> a[k] == b[k],
    ensures
        data_between(a, i, j) == data_between(b, i, j),
    decreases j - i,
{
    if i < j {
        lemma_data_between_same(a, b, i + 1, j);
    }
}

/// A located position stands at a byte, or past the end, and the data from
/// there on is what follows the bytes counted off.
proof fn lemma_locate<W: WalTypes>(writes: Seq<QueuedWrite<W>>, i: int, bytes: int, end: int)
    requires
        0 <= i <= end <= writes.len(),
        0 <= bytes <= data_between(writes, i, end).len(),
    ensures
        ({
            let (index, offset) = locate(writes, i, bytes, end);
            let len = writes.len() as int;
            &&& i <= index <= len
            &&& index == len ==> offset == 0
            &&& index < len ==> 0 <= offset < writes[index].write.data@.len()
            &&& data_between(writes, index, len).skip(offset) == data_between(writes, i, len).skip(
                bytes,
            )
        }),
    decreases end - i,
{
    let len = writes.len() as int;
    if i >= end {
        lemma_first_with_data(writes, end);
    } else {
        let size = writes[i].write.data@.len() as int;
        if bytes >= size {
            lemma_locate(writes, i + 1, bytes - size, end);
            lemma_data_between_split(writes, i, end, len);
            lemma_data_between_split(writes, i + 1, end, len);
            assert(data_between(writes, i, len).skip(bytes) =~= data_between(
                writes,
                i + 1,
                len,
            ).skip(bytes - size));
        }
    }
}

/// What is offered is the beginning of what remains.
pub proof fn lemma_offered_is_prefix<W: WalTypes>(cursor: WriteCursor, writes: Seq<QueuedWrite<W>>)
    requires
        cursor.valid(writes),
        cursor.index < writes.len(),
    ensures
        cursor.offered(writes).len() > 0,
        cursor.offered(writes).is_prefix_of(cursor.remaining(writes)),
{
    let end = cursor.group_end(writes);
    lemma_data_between_split(writes, cursor.index as int, end, writes.len() as int);
    let offered = cursor.offered(writes);
    assert(offered =~= cursor.remaining(writes).take(offered.len() as int));
}

/// Once `n` of the offered bytes have been written, the cursor stands before
/// the rest: no byte is written twice and none is left out.
pub proof fn law_advance_leaves_the_rest<W: WalTypes>(
    cursor: WriteCursor,
    writes: Seq<QueuedWrite<W>>,
    n: nat,
)
    requires
        cursor.valid(writes),
        cursor.index < writes.len() <= usize::MAX,
        n <= cursor.offered(writes).len(),
    ensures
        ({
            let (index, offset) = cursor.advanced(writes, n);
            let after = WriteCursor { index: index as usize, offset: offset as usize };
            &&& after.valid(writes)
            &&& after.index == index
            &&& after.offset == offset
            &&& after.remaining(writes) == cursor.remaining(writes).skip(n as int)
        }),
{
    let len = writes.len() as int;
    let index = cursor.index as int;
    lemma_locate(writes, index, cursor.offset + n, cursor.group_end(writes));
    let at = cursor.advanced(writes, n);
    assert(writes[at.0].write.data.len() == writes[at.0].write.data@.len());
    lemma_data_between_split(writes, index, cursor.group_end(writes), len);
    assert(data_between(writes, index, len).skip(cursor.offset as int).skip(n as int)
        =~= data_between(writes, index, len).skip(cursor.offset + n));
}

/// A vectored write is offered the data of many requests at once: all that is
/// left of the group of 1024 requests in which the cursor stands.
pub proof fn law_a_whole_group_is_offered<W: WalTypes>(
    cursor: WriteCursor,
    writes: Seq<QueuedWrite<W>>,
)
    requires
        cursor.valid(writes),
        cursor.index < writes.len(),
    ensures
        ({
            let end = cursor.group_end(writes);
            &&& cursor.index < end <= writes.len()
            &&& end == writes.len() || end % 1024 == 0
            &&& end <= cursor.index + 1024
            &&& cursor.offered(writes) == data_between(writes, cursor.index as int, end).skip(
                cursor.offset as int,
            )
        }),
{
}

} // verus!
