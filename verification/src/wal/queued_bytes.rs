//! The bound on queued data.

use vstd::prelude::*;

verus! {

/// Bounds how many bytes of queued write requests may be resident at once.
///
/// The request channel limits the number of queued requests but not their
/// size, so on its own it lets a fast appender hand a slow flush worker an
/// unbounded amount of encoded data.
#[derive(Debug)]
pub struct QueuedBytes {
    /// How many bytes may be reserved.
    pub limit: usize,
    /// How many bytes are reserved.
    pub used: usize,
}

impl QueuedBytes {
    /// `size` more bytes fit.
    ///
    /// A request bigger than the whole limit fits once nothing else is
    /// queued, because it could never fit otherwise.
    pub open spec fn admits(self, size: usize) -> bool {
        self.used == 0 || self.used + size <= self.limit
    }

    /// The bound after `size` more bytes were asked for: they are reserved if
    /// they fit.
    pub open spec fn acquired(self, size: usize) -> Self {
        if self.admits(size) {
            QueuedBytes { used: (self.used + size) as usize, ..self }
        } else {
            self
        }
    }

    /// The bound after `size` reserved bytes were returned.
    pub open spec fn released(self, size: usize) -> Self
        recommends
            size <= self.used,
    {
        QueuedBytes { used: (self.used - size) as usize, ..self }
    }

    /// The bound after every reserved byte was returned.
    pub open spec fn cleared(self) -> Self {
        QueuedBytes { used: 0, ..self }
    }

    /// Creates a bound with nothing reserved.
    pub fn new(limit: usize) -> (r: Self)
        ensures
            r == (QueuedBytes { limit, used: 0 }),
    {
        QueuedBytes { limit, used: 0 }
    }

    /// Reserves `size` more bytes if they fit under the limit, and returns
    /// whether they do. If they do not, the sender has to wait until bytes
    /// are released.
    pub fn acquire(&mut self, size: usize) -> (r: bool)
        ensures
            r == old(self).admits(size),
            *final(self) == old(self).acquired(size),
            r <==> old(self).used == 0 || old(self).used + size <= old(self).limit,
            r ==> final(self).used == old(self).used + size,
            final(self).used == if r {
                old(self).used + size
            } else {
                old(self).used as int
            },
            final(self).limit == old(self).limit,
    {
        if self.used > 0 && (self.used > self.limit || size > self.limit - self.used) {
            false
        } else {
            self.used = self.used + size;
            true
        }
    }

    /// Returns `size` reserved bytes. Every waiting sender may try again.
    pub fn release(&mut self, size: usize)
        requires
            size <= old(self).used,
        ensures
            *final(self) == old(self).released(size),
            final(self).used + size == old(self).used,
            final(self).limit == old(self).limit,
    {
        self.used = self.used - size;
    }

    /// Returns every reserved byte, for when the worker stops processing.
    pub fn release_all(&mut self)
        ensures
            *final(self) == old(self).cleared(),
            final(self).used == 0,
            final(self).limit == old(self).limit,
    {
        self.used = 0;
    }

    /// Returns how many bytes are reserved.
    pub fn used(&self) -> (r: usize)
        ensures
            r == self.used,
    {
        self.used
    }
}

/// A request is never refused for good: once everything reserved before it
/// has been returned, it fits, however big it is.
pub proof fn law_every_request_fits_in_the_end(queued: QueuedBytes, size: usize)
    ensures
        queued.cleared().admits(size),
{
}

/// A request that fits under the limit is never made to wait: its bytes are
/// reserved at once. One that does not fit is reserved at once if nothing else
/// is, and otherwise changes nothing.
pub proof fn law_what_fits_is_reserved_at_once(queued: QueuedBytes, size: usize)
    ensures
        queued.used + size <= queued.limit ==> queued.admits(size),
        queued.used == 0 ==> queued.admits(size),
        queued.used > 0 && queued.used + size > queued.limit ==> !queued.admits(size),
        queued.admits(size) ==> queued.acquired(size).used == queued.used + size,
        !queued.admits(size) ==> queued.acquired(size) == queued,
        queued.acquired(size).limit == queued.limit,
{
}

/// Bytes that were reserved and then returned are free again, and no others.
pub proof fn law_release_undoes_acquire(queued: QueuedBytes, size: usize)
    requires
        queued.admits(size),
    ensures
        queued.acquired(size).released(size) == queued,
        queued.acquired(size).cleared().used == 0,
        queued.acquired(size).cleared().limit == queued.limit,
{
}

/// Releasing bytes never makes a request wait that would have fitted.
pub proof fn law_release_keeps_admitting(queued: QueuedBytes, released: usize, size: usize)
    requires
        released <= queued.used,
        queued.admits(size),
    ensures
        queued.released(released).admits(size),
{
}

/// The bytes of some reservations together.
pub open spec fn total(reservations: Seq<nat>) -> nat
    decreases reservations.len(),
{
    if reservations.len() == 0 {
        0
    } else {
        total(reservations.drop_last()) + reservations.last()
    }
}

/// No reservation but the one at `index` has bytes left.
pub open spec fn is_sole(reservations: Seq<nat>, index: int) -> bool {
    &&& 0 <= index < reservations.len()
    &&& forall|i: int| 0 <= i < reservations.len() && i != index ==> #[trigger] reservations[i] == 0
}

impl QueuedBytes {
    /// The reserved bytes are those of `reservations`, and stay under the
    /// limit unless they belong to a single request.
    pub open spec fn accounts_for(self, reservations: Seq<nat>) -> bool {
        &&& self.used == total(reservations)
        &&& self.used <= self.limit || exists|index: int| is_sole(reservations, index)
    }
}

/// A call on the bound.
pub enum QueueCall {
    /// `acquire` of `size` bytes.
    Acquire { size: usize },
    /// `release` of `size` bytes.
    Release { size: usize },
    /// `release_all`.
    ReleaseAll,
}

impl QueueCall {
    /// The bound after the call.
    pub open spec fn applied(self, queued: QueuedBytes) -> QueuedBytes {
        match self {
            QueueCall::Acquire { size } => queued.acquired(size),
            QueueCall::Release { size } => queued.released(size),
            QueueCall::ReleaseAll => queued.cleared(),
        }
    }

    /// The call may be made: no more bytes are released than are reserved.
    pub open spec fn allowed(self, queued: QueuedBytes) -> bool {
        self matches QueueCall::Release { size } ==> size <= queued.used
    }

    /// How the call changes the reservations: an admitted request adds one, a
    /// release takes bytes off some of them, and `release_all` takes all.
    pub open spec fn changes(
        self,
        queued: QueuedBytes,
        before: Seq<nat>,
        after: Seq<nat>,
    ) -> bool {
        match self {
            QueueCall::Acquire { size } => after == if queued.admits(size) {
                before.push(size as nat)
            } else {
                before
            },
            QueueCall::Release { size } => {
                &&& after.len() == before.len()
                &&& forall|i: int| 0 <= i < before.len() ==> #[trigger] after[i] <= before[i]
                &&& total(after) + size == total(before)
            },
            QueueCall::ReleaseAll => after == Seq::<nat>::empty(),
        }
    }
}

/// The bound after the first `n` calls on a new one.
pub open spec fn queued_after(limit: usize, calls: Seq<QueueCall>, n: nat) -> QueuedBytes
    decreases n,
{
    if n == 0 {
        QueuedBytes { limit, used: 0 }
    } else {
        calls[n - 1].applied(queued_after(limit, calls, (n - 1) as nat))
    }
}

/// Every call may be made when its turn comes.
pub open spec fn all_allowed(limit: usize, calls: Seq<QueueCall>) -> bool {
    forall|i: int|
        0 <= i < calls.len() ==> (#[trigger] calls[i]).allowed(queued_after(limit, calls, i as nat))
}

/// The largest size asked for in the first `n` calls.
pub open spec fn largest(calls: Seq<QueueCall>, n: nat) -> usize
    decreases n,
{
    if n == 0 {
        0
    } else {
        let before = largest(calls, (n - 1) as nat);
        match calls[n - 1] {
            QueueCall::Acquire { size } => if size > before {
                size
            } else {
                before
            },
            _ => before,
        }
    }
}

/// Whatever calls are made in whatever order, no more bytes are reserved than
/// the limit allows or the largest request has.
pub proof fn law_reserved_bytes_are_bounded(limit: usize, calls: Seq<QueueCall>, n: nat)
    requires
        all_allowed(limit, calls),
        n <= calls.len(),
    ensures
        queued_after(limit, calls, n).limit == limit,
        ({
            let used = queued_after(limit, calls, n).used;
            used <= limit || used <= largest(calls, n)
        }),
    decreases n,
{
    if n > 0 {
        law_reserved_bytes_are_bounded(limit, calls, (n - 1) as nat);
        assert(calls[n - 1].allowed(queued_after(limit, calls, (n - 1) as nat)));
    }
}

proof fn lemma_total_zero(reservations: Seq<nat>, i: int)
    requires
        total(reservations) == 0,
        0 <= i < reservations.len(),
    ensures
        reservations[i] == 0,
    decreases reservations.len(),
{
    if i < reservations.len() - 1 {
        lemma_total_zero(reservations.drop_last(), i);
    }
}

/// A call keeps the account of reservations.
proof fn lemma_call_accounts(
    queued: QueuedBytes,
    call: QueueCall,
    before: Seq<nat>,
    after: Seq<nat>,
)
    requires
        queued.accounts_for(before),
        call.allowed(queued),
        call.changes(queued, before, after),
    ensures
        call.applied(queued).accounts_for(after),
{
    let then = call.applied(queued);
    match call {
        QueueCall::Acquire { size } => {
            if queued.admits(size) {
                assert(after.drop_last() =~= before);
                if queued.used == 0 {
                    assert forall|i: int|
                        0 <= i < after.len() && i != before.len() implies #[trigger] after[i]
                        == 0 by {
                        lemma_total_zero(before, i);
                    }
                    assert(is_sole(after, before.len() as int));
                }
            }
        },
        QueueCall::Release { size } => {
            if then.used > then.limit {
                let index = choose|index: int| is_sole(before, index);
                assert forall|i: int|
                    0 <= i < after.len() && i != index implies #[trigger] after[i] == 0 by {
                    assert(after[i] <= before[i]);
                }
                assert(is_sole(after, index));
            }
        },
        QueueCall::ReleaseAll => {},
    }
}

/// Whatever calls are made in whatever order, the reserved bytes exceed the
/// limit only while they belong to a single request, which is bigger than the
/// limit. `reservations` lists, before each call and after the last, the bytes
/// still reserved for each admitted request.
pub proof fn law_only_a_sole_request_exceeds_the_limit(
    limit: usize,
    calls: Seq<QueueCall>,
    reservations: Seq<Seq<nat>>,
    n: nat,
)
    requires
        all_allowed(limit, calls),
        n <= calls.len(),
        reservations.len() == calls.len() + 1,
        reservations[0] == Seq::<nat>::empty(),
        forall|i: int|
            0 <= i < calls.len() ==> (#[trigger] calls[i]).changes(
                queued_after(limit, calls, i as nat),
                reservations[i],
                reservations[i + 1],
            ),
    ensures
        ({
            let queued = queued_after(limit, calls, n);
            &&& queued.accounts_for(reservations[n as int])
            &&& queued.used > limit ==> exists|index: int|
                #![trigger is_sole(reservations[n as int], index)]
                {
                    &&& is_sole(reservations[n as int], index)
                    &&& reservations[n as int][index] == queued.used
                    &&& reservations[n as int][index] > limit
                }
        }),
    decreases n,
{
    law_reserved_bytes_are_bounded(limit, calls, n);
    if n > 0 {
        let i = n - 1;
        law_only_a_sole_request_exceeds_the_limit(limit, calls, reservations, i as nat);
        let queued = queued_after(limit, calls, i as nat);
        assert(calls[i].allowed(queued));
        assert(calls[i].changes(queued, reservations[i], reservations[i + 1]));
        lemma_call_accounts(queued, calls[i], reservations[i], reservations[i + 1]);
    }
    let queued = queued_after(limit, calls, n);
    if queued.used > limit {
        let index = choose|index: int| is_sole(reservations[n as int], index);
        lemma_total_of_sole(reservations[n as int], index);
    }
}

proof fn lemma_total_of_sole(reservations: Seq<nat>, index: int)
    requires
        is_sole(reservations, index),
    ensures
        total(reservations) == reservations[index],
    decreases reservations.len(),
{
    let rest = reservations.drop_last();
    if index < reservations.len() - 1 {
        assert(is_sole(rest, index));
        lemma_total_of_sole(rest, index);
    } else {
        lemma_all_zero(rest);
    }
}

proof fn lemma_all_zero(reservations: Seq<nat>)
    requires
        forall|i: int| 0 <= i < reservations.len() ==> #[trigger] reservations[i] == 0,
    ensures
        total(reservations) == 0,
    decreases reservations.len(),
{
    if reservations.len() > 0 {
        lemma_all_zero(reservations.drop_last());
    }
}

} // verus!
