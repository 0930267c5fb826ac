//! What the completed sequence number tells those who wait for it.
//!
//! Requests are numbered in the order they are sent, and taken off the queue
//! in that order. The number that the worker reports as completed is never
//! ahead of the requests it has taken, and catches up with them exactly when
//! nothing of what it has taken is left to do. So whoever waits for a number
//! until it is completed knows that every request up to it has been written.

use crate::types::WalTypes;
use crate::wal::durability::FileState;
use crate::wal::flow::Flow;
use crate::wal::flow::Turn;
use crate::wal::flush_request::SeqRequest;
use crate::wal::flush_request::WorkerRequest;
use crate::wal::worker_event::Event;
use crate::wal::worker_model::StepView;
use crate::wal::worker_model::WorkerView;
use crate::wal::worker_step::Effect;
use crate::wal::worker_step::Stage;
use vstd::prelude::*;

verus! {

impl<W: WalTypes> Flow<W> {
    /// The number of the latest request that was taken off the queue.
    pub open spec fn taken_seq(self) -> u64 {
        (self.client.sent_seq - self.queue.len()) as u64
    }

    /// The queue holds the requests numbered from the one after the latest
    /// that was taken off it to the latest that was sent.
    pub open spec fn numbered(self) -> bool {
        &&& self.queue.len() <= self.client.sent_seq
        &&& forall|i: int|
            0 <= i < self.queue.len() ==> (#[trigger] self.queue[i]).seq == self.taken_seq() + 1
                + i
    }

    /// The completed number follows the requests that were taken: it is that
    /// of the latest one, or about to be, if the worker waits for a request
    /// or has stopped without a failure, and is below it otherwise.
    pub open spec fn follows(self) -> bool {
        let latest = self.taken_seq();
        let done = self.state.done_seq;
        &&& self.numbered()
        &&& done <= latest
        &&& crate::wal::completion::working_on(self.worker, latest)
        &&& crate::wal::completion::reports_only(self.due, latest)
        &&& match self.worker.stage {
            Stage::Receive => if self.due.len() == 0 {
                done == latest
            } else {
                self.due.last() == (Effect::<W>::Complete { seq: latest })
            },
            Stage::Stopped => {
                &&& !crate::wal::completion::reports(self.due)
                &&& if self.state.failure is None {
                    done == latest
                } else {
                    done < latest
                }
            },
            _ => !crate::wal::completion::reports(self.due) && done < latest,
        }
    }
}

/// When everything that was sent has been completed and nothing is left to be
/// done, the completed number follows. A log that has just been opened is such
/// a case: nothing was sent and nothing completed.
pub proof fn law_start_follows<W: WalTypes>(flow: Flow<W>)
    requires
        flow.at_rest(),
        flow.worker.stage is Receive,
        flow.state.done_seq == flow.client.sent_seq,
    ensures
        flow.follows(),
{
}

proof fn lemma_work_follows<W: WalTypes>(
    before: Flow<W>,
    event: Event<W>,
    step: StepView<W>,
    after: Flow<W>,
)
    requires
        before.sound(),
        before.follows(),
        (Turn::Work { event, step }).leads(before, after),
    ensures
        after.follows(),
{
    let v = before.worker;
    let latest = before.taken_seq();
    if crate::wal::progress::takes_request(event) {
        assert(before.queue[0].seq == latest + 1);
        assert(after.taken_seq() == latest + 1);
        assert forall|i: int| 0 <= i < after.queue.len() implies (#[trigger] after.queue[i]).seq
            == after.taken_seq() + 1 + i by {
            assert(after.queue[i] == before.queue[i + 1]);
        }
    }
    crate::wal::completion::law_step_completes_in_order(v, event, step, latest);
    crate::wal::step_shape::lemma_files_follow(v, event, step);
    assert(step.state.stage is Receive ==> step.action is Receive);
}

proof fn lemma_perform_follows<W: WalTypes>(before: Flow<W>, after: Flow<W>)
    requires
        before.sound(),
        before.follows(),
        Turn::<W>::Perform.leads(before, after),
    ensures
        after.follows(),
        before.state.failure is Some ==> after.state.done_seq == before.state.done_seq,
{
    assert forall|i: int| 0 <= i < after.due.len() implies #[trigger] after.due[i] == before.due[i
        + 1] by {}
    let first = before.due[0];
    if after.due.len() > 0 {
        assert(after.due.last() == before.due.last());
    }
    if first is Complete {
        assert(crate::wal::completion::reports(before.due));
    }
    if first is Stopped {
        assert(crate::wal::step_shape::reports_stop(before.due));
    }
}

/// With every turn, the completed number follows the requests that were
/// taken.
pub proof fn law_turn_follows<W: WalTypes>(turn: Turn<W>, before: Flow<W>, after: Flow<W>)
    requires
        before.sound(),
        before.follows(),
        turn.leads(before, after),
    ensures
        after.follows(),
        before.state.failure is Some ==> after.state.done_seq == before.state.done_seq,
{
    match turn {
        Turn::Send { .. } => {},
        Turn::Close => {},
        Turn::Work { event, step } => {
            lemma_work_follows(before, event, step, after);
        },
        Turn::Perform => {
            lemma_perform_follows(before, after);
        },
    }
}

/// However the sender and the worker take turns, the completed number follows
/// the requests that were taken.
pub proof fn law_history_follows<W: WalTypes>(flows: Seq<Flow<W>>, turns: Seq<Turn<W>>, n: nat)
    requires
        crate::wal::flow::is_history(flows, turns),
        flows[0].sound(),
        flows[0].follows(),
        n <= turns.len(),
    ensures
        flows[n as int].follows(),
    decreases n,
{
    if n > 0 {
        let i = n - 1;
        law_history_follows(flows, turns, i as nat);
        crate::wal::flow::law_history_is_sound(flows, turns, i as nat);
        assert(turns[i].leads(flows[i], flows[n as int]));
        law_turn_follows(turns[i], flows[i], flows[n as int]);
    }
}

/// Once a failure of the worker is recorded, the completed number never
/// changes, and neither does the answer to those who wait for a higher one.
pub proof fn law_nothing_completes_after_a_failure<W: WalTypes>(
    flows: Seq<Flow<W>>,
    turns: Seq<Turn<W>>,
    seq: u64,
    n: nat,
)
    requires
        crate::wal::flow::is_history(flows, turns),
        flows[0].sound(),
        flows[0].follows(),
        flows[0].state.failure is Some,
        n <= turns.len(),
    ensures
        flows[n as int].state.done_seq == flows[0].state.done_seq,
        flows[n as int].state.outcome(seq) == flows[0].state.outcome(seq),
    decreases n,
{
    if n > 0 {
        let i = n - 1;
        law_nothing_completes_after_a_failure(flows, turns, seq, i as nat);
        law_history_follows(flows, turns, i as nat);
        crate::wal::flow::law_history_is_sound(flows, turns, i as nat);
        crate::wal::flow::law_nothing_is_reserved_after_a_failure(
            flows,
            turns,
            vstd::pervasive::arbitrary(),
            i as nat,
        );
        crate::wal::flow::law_nothing_is_reserved_after_a_failure(
            flows,
            turns,
            vstd::pervasive::arbitrary(),
            n,
        );
        assert(turns[i].leads(flows[i], flows[n as int]));
        law_turn_follows(turns[i], flows[i], flows[n as int]);
    }
}

/// When waiting for the latest number succeeds, nothing that was sent is
/// queued, and the worker waits for a request or has stopped, without having
/// failed. It does succeed once nothing is left to be done and the worker has
/// not failed.
pub proof fn law_idle_means_nothing_is_left<W: WalTypes>(flow: Flow<W>)
    requires
        flow.sound(),
        flow.follows(),
    ensures
        flow.client.idle_outcome(flow.state) == Some(Ok::<(), crate::errors::Error>(())) ==> {
            &&& flow.queue.len() == 0
            &&& flow.worker.stage is Receive || flow.worker.stage is Stopped
            &&& flow.state.failure is None
            &&& flow.state.done_seq == flow.client.sent_seq
        },
        flow.at_rest() && flow.state.failure is None ==> flow.client.idle_outcome(flow.state)
            == Some(Ok::<(), crate::errors::Error>(())),
{
}

/// The requests that the first `n` turns send, in order.
pub open spec fn requests_sent<W: WalTypes>(turns: Seq<Turn<W>>, n: nat) -> Seq<WorkerRequest<W>>
    decreases n,
{
    if n == 0 {
        Seq::empty()
    } else {
        let before = requests_sent(turns, (n - 1) as nat);
        match turns[n - 1] {
            Turn::Send { req, .. } => before.push(req),
            _ => before,
        }
    }
}

/// The bytes that requests add to the log, in order.
pub open spec fn contents<W: WalTypes>(reqs: Seq<WorkerRequest<W>>) -> Seq<u8>
    decreases reqs.len(),
{
    if reqs.len() == 0 {
        Seq::empty()
    } else {
        contents(reqs.drop_last()) + crate::wal::delivery::content_of(reqs.last())
    }
}

proof fn lemma_sent_contents<W: WalTypes>(turns: Seq<Turn<W>>, n: nat)
    ensures
        crate::wal::delivery::sent_until(turns, n) == contents(requests_sent(turns, n)),
    decreases n,
{
    if n > 0 {
        let before = requests_sent(turns, (n - 1) as nat);
        lemma_sent_contents(turns, (n - 1) as nat);
        match turns[n - 1] {
            Turn::Send { req, .. } => {
                assert(before.push(req).drop_last() =~= before);
            },
            _ => {
                assert(contents(before) + Seq::<u8>::empty() =~= contents(before));
            },
        }
    }
}

/// The queue holds the last of the requests that were sent.
spec fn queue_is_tail<W: WalTypes>(
    queue: Seq<SeqRequest<W>>,
    sent: Seq<WorkerRequest<W>>,
) -> bool {
    &&& queue.len() <= sent.len()
    &&& forall|i: int|
        0 <= i < queue.len() ==> (#[trigger] queue[i]).req == sent[sent.len() - queue.len() + i]
}

/// The bytes of all requests are those of the ones that were taken, followed
/// by those of the ones that are queued.
proof fn lemma_queue_is_tail<W: WalTypes>(
    queue: Seq<SeqRequest<W>>,
    sent: Seq<WorkerRequest<W>>,
)
    requires
        queue_is_tail(queue, sent),
    ensures
        contents(sent) == contents(sent.take(sent.len() - queue.len()))
            + crate::wal::delivery::queue_content(queue),
    decreases queue.len(),
{
    let taken = sent.take(sent.len() - queue.len());
    if queue.len() == 0 {
        assert(taken =~= sent);
        assert(contents(sent) + Seq::<u8>::empty() =~= contents(sent));
    } else {
        assert forall|i: int| 0 <= i < queue.len() - 1 implies (#[trigger] queue.drop_last()[i]).req
            == sent.drop_last()[sent.len() - queue.len() + i] by {
            assert(queue[i].req == sent[sent.len() - queue.len() + i]);
        }
        lemma_queue_is_tail(queue.drop_last(), sent.drop_last());
        assert(sent.drop_last().take(sent.len() - queue.len()) =~= taken);
        assert(queue[queue.len() - 1].req == sent.last());
        let queued = crate::wal::delivery::queue_content(queue.drop_last());
        let last = crate::wal::delivery::content_of(sent.last());
        assert(contents(taken) + queued + last =~= contents(taken) + (queued + last));
    }
}

proof fn lemma_same_content(a: Seq<FileState>, b: Seq<FileState>)
    requires
        a.len() == b.len(),
        forall|i: int| 0 <= i < a.len() ==> (#[trigger] a[i]).content == b[i].content,
    ensures
        crate::wal::delivery::all_content(a) == crate::wal::delivery::all_content(b),
    decreases a.len(),
{
    if a.len() > 0 {
        lemma_same_content(a.drop_last(), b.drop_last());
    }
}

proof fn lemma_content_of_last(disk: Seq<FileState>, last: FileState)
    requires
        disk.len() > 0,
        disk.last().content.is_prefix_of(last.content),
    ensures
        crate::wal::delivery::all_content(disk).is_prefix_of(
            crate::wal::delivery::all_content(disk.update(disk.len() - 1, last)),
        ),
{
    let after = disk.update(disk.len() - 1, last);
    assert(after.drop_last() =~= disk.drop_last());
    let before = crate::wal::delivery::all_content(disk.drop_last());
    let (short, long) = (disk.last().content, last.content);
    assert(before + short =~= (before + long).take((before + short).len() as int)) by {
        assert(short =~= long.take(short.len() as int));
    }
}

/// Events only ever add to the end of the log.
pub proof fn law_the_log_only_grows<W: WalTypes>(
    v: WorkerView<W>,
    event: Event<W>,
    disk: Seq<FileState>,
)
    requires
        v.well_formed(),
        crate::wal::durability::tracks(v, disk),
        event.enabled(v),
    ensures
        crate::wal::delivery::all_content(disk).is_prefix_of(
            crate::wal::delivery::all_content(event.applied(v, disk)),
        ),
{
    let after = event.applied(v, disk);
    let content = crate::wal::delivery::all_content(disk);
    let cur = crate::wal::durability::current(v, disk);
    assert(content =~= content.take(content.len() as int));
    match event {
        Event::Wrote { result: Ok(n), .. } => {
            let more = v.cursor.offered(v.writes).take(n as int);
            let old = disk[cur].content;
            assert(old =~= (old + more).take(old.len() as int));
            lemma_content_of_last(disk, after[cur]);
        },
        Event::Created { result: Ok(_) } => {
            assert(after.drop_last() =~= disk);
            assert(content + Seq::<u8>::empty() =~= content);
        },
        Event::LeadingWritten { .. } => {
            let old = disk[cur + 1].content;
            assert(old =~= after[cur + 1].content.take(0));
            lemma_content_of_last(disk, after[cur + 1]);
        },
        _ => {
            lemma_same_content(after, disk);
        },
    }
}

/// What is known of a log that held `base`, and to which `sent` has been sent
/// since number `first`: it begins with `base`, followed by the bytes of the
/// requests up to the completed number.
spec fn keeps<W: WalTypes>(
    flow: Flow<W>,
    disk: Seq<FileState>,
    base: Seq<u8>,
    first: u64,
    sent: Seq<WorkerRequest<W>>,
) -> bool {
    &&& flow.client.sent_seq == first + sent.len()
    &&& queue_is_tail(flow.queue, sent)
    &&& first <= flow.state.done_seq
    &&& flow.state.done_seq - first <= sent.len()
    &&& (base + contents(sent.take(flow.state.done_seq - first))).is_prefix_of(
        crate::wal::delivery::all_content(disk),
    )
}

/// While the worker waits for a request, the log is what it held and the
/// bytes of the requests taken since.
proof fn lemma_log_at_receive<W: WalTypes>(
    flow: Flow<W>,
    disk: Seq<FileState>,
    base: Seq<u8>,
    sent: Seq<WorkerRequest<W>>,
)
    requires
        flow.sound(),
        crate::wal::delivery::delivers(flow, disk, base + contents(sent)),
        queue_is_tail(flow.queue, sent),
        flow.state.failure is None,
        flow.worker.stage is Receive || flow.worker.stage is Stopped,
    ensures
        crate::wal::delivery::all_content(disk) == base + contents(
            sent.take(sent.len() - flow.queue.len()),
        ),
{
    let queued = crate::wal::delivery::queue_content(flow.queue);
    let taken = contents(sent.take(sent.len() - flow.queue.len()));
    let asked = crate::wal::delivery::all_asked(disk);
    lemma_queue_is_tail(flow.queue, sent);
    crate::wal::delivery::lemma_complete_files(disk);
    assert(asked + crate::wal::delivery::in_hand(flow.worker) =~= asked);
    assert(asked + queued == base + (taken + queued));
    assert(base + (taken + queued) =~= base + taken + queued);
    assert(asked.len() == (base + taken).len());
    assert(asked =~= (asked + queued).take(asked.len() as int));
    assert(base + taken =~= (base + taken + queued).take((base + taken).len() as int));
}

proof fn lemma_prefix_trans(a: Seq<u8>, b: Seq<u8>, c: Seq<u8>)
    requires
        a.is_prefix_of(b),
        b.is_prefix_of(c),
    ensures
        a.is_prefix_of(c),
{
    assert(a =~= b.take(a.len() as int));
    assert(b =~= c.take(b.len() as int));
    assert(a =~= c.take(a.len() as int));
}

proof fn lemma_turn_keeps<W: WalTypes>(
    turn: Turn<W>,
    before: Flow<W>,
    after: Flow<W>,
    disk: Seq<FileState>,
    base: Seq<u8>,
    first: u64,
    sent: Seq<WorkerRequest<W>>,
)
    requires
        before.sound(),
        before.follows(),
        turn.leads(before, after),
        crate::wal::delivery::delivers(before, disk, base + contents(sent)),
        keeps(before, disk, base, first, sent),
    ensures
        keeps(
            after,
            crate::wal::delivery::turned(turn, before, disk),
            base,
            first,
            match turn {
                Turn::Send { req, .. } => sent.push(req),
                _ => sent,
            },
        ),
{
    let done = before.state.done_seq - first;
    match turn {
        Turn::Send { req, .. } => {
            assert(sent.push(req).take(done) =~= sent.take(done));
        },
        Turn::Close => {},
        Turn::Work { event, step } => {
            law_the_log_only_grows(before.worker, event, disk);
            lemma_prefix_trans(
                base + contents(sent.take(done)),
                crate::wal::delivery::all_content(disk),
                crate::wal::delivery::all_content(event.applied(before.worker, disk)),
            );
            assert forall|i: int| 0 <= i < after.queue.len() implies (#[trigger] after.queue[i]).req
                == sent[sent.len() - after.queue.len() + i] by {
                if crate::wal::progress::takes_request(event) {
                    assert(before.queue[i + 1].req == sent[sent.len() - before.queue.len() + i
                        + 1]);
                } else {
                    assert(before.queue[i].req == sent[sent.len() - before.queue.len() + i]);
                }
            }
        },
        Turn::Perform => {
            if before.due[0] is Complete {
                assert(crate::wal::completion::reports(before.due));
                assert(before.worker.stage is Receive);
                lemma_log_at_receive(before, disk, base, sent);
                let log = crate::wal::delivery::all_content(disk);
                assert(log =~= log.take(log.len() as int));
            }
        },
    }
}

proof fn lemma_history_keeps<W: WalTypes>(
    flows: Seq<Flow<W>>,
    turns: Seq<Turn<W>>,
    disk: Seq<FileState>,
    n: nat,
)
    requires
        is_history_from_rest(flows, turns, disk),
        n <= turns.len(),
    ensures
        ({
            let base = crate::wal::delivery::all_content(disk);
            let files = crate::wal::delivery::disk_after(flows, turns, disk, n);
            let sent = requests_sent(turns, n);
            &&& flows[n as int].sound()
            &&& flows[n as int].follows()
            &&& crate::wal::delivery::delivers(flows[n as int], files, base + contents(sent))
            &&& keeps(flows[n as int], files, base, flows[0].client.sent_seq, sent)
        }),
    decreases n,
{
    let base = crate::wal::delivery::all_content(disk);
    let first = flows[0];
    law_start_follows(first);
    crate::wal::flow::law_history_is_sound(flows, turns, n);
    law_history_follows(flows, turns, n);
    crate::wal::delivery::lemma_complete_files(disk);
    assert(crate::wal::delivery::all_asked(disk) + crate::wal::delivery::in_hand(first.worker)
        + crate::wal::delivery::queue_content(first.queue) =~= base);
    crate::wal::delivery::lemma_history_delivers(flows, turns, disk, base, n);
    lemma_sent_contents(turns, n);
    if n == 0 {
        let none = Seq::<WorkerRequest<W>>::empty();
        assert(none.take(0) =~= none);
        assert(base + contents(none) =~= base);
        assert(base =~= base.take(base.len() as int));
    } else {
        let i = n - 1;
        lemma_history_keeps(flows, turns, disk, i as nat);
        assert(turns[i].leads(flows[i], flows[n as int]));
        lemma_turn_keeps(
            turns[i],
            flows[i],
            flows[n as int],
            crate::wal::delivery::disk_after(flows, turns, disk, i as nat),
            base,
            first.client.sent_seq,
            requests_sent(turns, i as nat),
        );
    }
}

/// The sender and the worker take turns, beginning when nothing is left to be
/// done and everything sent has been completed, on a log whose files are
/// `disk`. A log that has just been opened is such a beginning.
pub open spec fn is_history_from_rest<W: WalTypes>(
    flows: Seq<Flow<W>>,
    turns: Seq<Turn<W>>,
    disk: Seq<FileState>,
) -> bool {
    &&& crate::wal::flow::is_history(flows, turns)
    &&& flows[0].sound()
    &&& flows[0].at_rest()
    &&& flows[0].worker.stage is Receive
    &&& flows[0].state.done_seq == flows[0].client.sent_seq
    &&& crate::wal::durability::tracks(flows[0].worker, disk)
}

/// Whoever waits for a request and is told that it has been completed finds it
/// in the log: the log begins with what it held at first, followed by the bytes
/// of every request sent since, up to that one, in the order they were sent.
/// This holds even if the worker fails later.
pub proof fn law_completed_requests_are_written<W: WalTypes>(
    flows: Seq<Flow<W>>,
    turns: Seq<Turn<W>>,
    disk: Seq<FileState>,
    seq: u64,
    n: nat,
)
    requires
        is_history_from_rest(flows, turns, disk),
        n <= turns.len(),
        flows[0].client.sent_seq <= seq <= flows[n as int].client.sent_seq,
        flows[n as int].state.outcome(seq) == Some(Ok::<(), crate::errors::Error>(())),
    ensures
        (crate::wal::delivery::all_content(disk) + contents(
            requests_sent(turns, n).take(seq - flows[0].client.sent_seq),
        )).is_prefix_of(
            crate::wal::delivery::all_content(
                crate::wal::delivery::disk_after(flows, turns, disk, n),
            ),
        ),
{
    lemma_history_keeps(flows, turns, disk, n);
    let base = crate::wal::delivery::all_content(disk);
    let sent = requests_sent(turns, n);
    let first = flows[0].client.sent_seq;
    let (k, done) = (seq - first, flows[n as int].state.done_seq - first);
    lemma_contents_prefix(sent, k, done);
    let (short, long) = (contents(sent.take(k)), contents(sent.take(done)));
    assert(base + short =~= (base + long).take((base + short).len() as int)) by {
        assert(short =~= long.take(short.len() as int));
    }
    lemma_prefix_trans(
        base + short,
        base + long,
        crate::wal::delivery::all_content(
            crate::wal::delivery::disk_after(flows, turns, disk, n),
        ),
    );
}

proof fn lemma_contents_prefix<W: WalTypes>(reqs: Seq<WorkerRequest<W>>, i: int, j: int)
    requires
        0 <= i <= j <= reqs.len(),
    ensures
        contents(reqs.take(i)).is_prefix_of(contents(reqs.take(j))),
    decreases j - i,
{
    let short = contents(reqs.take(i));
    if i == j {
        assert(short =~= short.take(short.len() as int));
    } else {
        lemma_contents_prefix(reqs, i, j - 1);
        assert(reqs.take(j).drop_last() =~= reqs.take(j - 1));
        let (mid, long) = (contents(reqs.take(j - 1)), contents(reqs.take(j)));
        assert(mid =~= long.take(mid.len() as int));
        lemma_prefix_trans(short, mid, long);
    }
}

/// When the sender has waited until the worker is idle and was told that all
/// is well, nothing is queued, the worker waits for a request or has stopped,
/// it has not failed, and the log is what it was at first, followed by the
/// bytes of everything sent since, in the order it was sent.
pub proof fn law_idle_means_everything_is_written<W: WalTypes>(
    flows: Seq<Flow<W>>,
    turns: Seq<Turn<W>>,
    disk: Seq<FileState>,
    n: nat,
)
    requires
        is_history_from_rest(flows, turns, disk),
        n <= turns.len(),
        flows[n as int].client.idle_outcome(flows[n as int].state) == Some(
            Ok::<(), crate::errors::Error>(()),
        ),
    ensures
        flows[n as int].queue.len() == 0,
        flows[n as int].worker.stage is Receive || flows[n as int].worker.stage is Stopped,
        flows[n as int].state.failure is None,
        crate::wal::delivery::all_content(
            crate::wal::delivery::disk_after(flows, turns, disk, n),
        ) == crate::wal::delivery::all_content(disk) + crate::wal::delivery::sent_until(turns, n),
{
    let last = flows[n as int];
    let sent = requests_sent(turns, n);
    lemma_history_keeps(flows, turns, disk, n);
    law_idle_means_nothing_is_left(last);
    lemma_log_at_receive(
        last,
        crate::wal::delivery::disk_after(flows, turns, disk, n),
        crate::wal::delivery::all_content(disk),
        sent,
    );
    assert(sent.take(sent.len() as int) =~= sent);
    lemma_sent_contents(turns, n);
}

} // verus!
