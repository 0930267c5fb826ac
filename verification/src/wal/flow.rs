//! What the sender of requests and the flush worker guarantee together.
//!
//! The sender reserves bytes and puts requests into a queue; the worker takes
//! them off, works on them and returns the bytes. The two take turns in any
//! order. Between them, the reserved bytes are exactly those of the data that
//! has not been written yet, so a sender has to wait only while there is data
//! to write; and once the worker has failed, nothing is reserved.

use crate::types::WalTypes;
use crate::wal::flush_client::FlushClient;
use crate::wal::flush_request::SeqRequest;
use crate::wal::flush_request::WorkerRequest;
use crate::wal::worker_event::Event;
use crate::wal::worker_model::StepView;
use crate::wal::worker_model::WorkerView;
use crate::wal::worker_state::WorkerState;
use crate::wal::worker_step::Effect;
use crate::wal::worker_step::Stage;
use vstd::prelude::*;

verus! {

/// The sender, the worker, and what is between them.
pub struct Flow<W: WalTypes> {
    /// The sender.
    pub client: FlushClient,
    /// What the two share.
    pub state: WorkerState,
    /// The requests sent and not taken off the queue, oldest first.
    pub queue: Seq<SeqRequest<W>>,
    /// The worker.
    pub worker: WorkerView<W>,
    /// The effects that are due, in order.
    pub due: Seq<Effect<W>>,
}

/// A turn of the sender or of the worker.
pub enum Turn<W: WalTypes> {
    /// The sender sends a request.
    Send { req: WorkerRequest<W>, now: u64 },
    /// The sender closes the queue.
    Close,
    /// The worker is told of an event.
    Work { event: Event<W>, step: StepView<W> },
    /// The effect that is due first is performed.
    Perform,
}

/// The bytes of queued data.
pub open spec fn queue_bytes<W: WalTypes>(queue: Seq<SeqRequest<W>>) -> nat
    decreases queue.len(),
{
    if queue.len() == 0 {
        0
    } else {
        crate::wal::accounting::brought(queue.first().req).bytes + queue_bytes(queue.drop_first())
    }
}

/// What an effect does to the shared state.
pub open spec fn performed<W: WalTypes>(state: WorkerState, effect: Effect<W>) -> WorkerState {
    match effect {
        Effect::Release { bytes } => state.released(bytes),
        Effect::Complete { seq } => state.completed(seq),
        Effect::Stopped { failure } => state.stopped(failure),
        _ => state,
    }
}

/// The worker takes the event's request off the queue, if the event has one.
/// An event that says that the queue is empty happens only if it is.
pub open spec fn taken<W: WalTypes>(event: Event<W>, flow: Flow<W>, queue: Seq<SeqRequest<W>>) -> bool {
    match event {
        Event::Received { request, .. } | Event::ReceivedMore { request, .. } => {
            &&& flow.queue.len() > 0
            &&& request == flow.queue.first()
            &&& queue == flow.queue.drop_first()
        },
        Event::Drained { request: Some(request) } => {
            &&& flow.queue.len() > 0
            &&& request == flow.queue.first()
            &&& queue == flow.queue.drop_first()
        },
        Event::Drained { request: None } => flow.queue.len() == 0 && queue == flow.queue,
        Event::Closed => !flow.client.open && flow.queue.len() == 0 && queue == flow.queue,
        _ => queue == flow.queue,
    }
}

impl<W: WalTypes> Turn<W> {
    /// The turn leads from `before` to `after`.
    pub open spec fn leads(self, before: Flow<W>, after: Flow<W>) -> bool {
        match self {
            Turn::Send { req, now } => {
                &&& before.client.open
                &&& before.client.sent_seq < u64::MAX
                &&& !crate::wal::flush_client::blocks(req, before.state)
                &&& after == Flow {
                    client: before.client.advanced(),
                    state: crate::wal::flush_client::reserving(req, before.state),
                    queue: before.queue.push(before.client.stamped(req, now)),
                    ..before
                }
            },
            Turn::Close => after == Flow { client: before.client.closed(), ..before },
            Turn::Work { event, step } => {
                &&& before.due.len() == 0
                &&& event.enabled(before.worker)
                &&& event.leads_to(before.worker, step)
                &&& event.batch(before.worker).len() <= usize::MAX
                &&& taken(event, before, after.queue)
                &&& after.client == before.client
                &&& after.state == before.state
                &&& after.worker == step.state
                &&& after.due == step.effects
            },
            Turn::Perform => {
                &&& before.due.len() > 0
                &&& after == Flow {
                    state: performed(before.state, before.due.first()),
                    due: before.due.drop_first(),
                    ..before
                }
            },
        }
    }
}

impl<W: WalTypes> Flow<W> {
    /// What holds after every turn.
    pub open spec fn sound(self) -> bool {
        let due_bytes = crate::wal::accounting::returned_by(self.due).bytes;
        &&& self.worker.well_formed()
        &&& self.state.well_formed()
        &&& if self.worker.stage is Drain {
            &&& due_bytes == 0
            &&& if self.state.failure is None {
                &&& self.due.len() > 0
                &&& self.due.last() matches Effect::Stopped { failure }
                &&& failure is Some
                &&& !crate::wal::step_shape::reports_stop(self.due.drop_last())
            } else {
                !crate::wal::step_shape::reports_stop(self.due)
            }
        } else if self.worker.stage is Stopped {
            &&& due_bytes == 0
            &&& if self.state.failure is None {
                &&& !self.client.open
                &&& self.queue.len() == 0
                &&& self.state.queued_bytes.used == 0
                &&& forall|i: int|
                    0 <= i < self.due.len() && (#[trigger] self.due[i]) is Stopped
                        ==> self.due[i]->failure is None
            } else {
                !crate::wal::step_shape::reports_stop(self.due)
            }
        } else {
            &&& self.state.failure is None
            &&& !crate::wal::step_shape::reports_stop(self.due)
            &&& self.state.queued_bytes.used == queue_bytes(self.queue)
                + crate::wal::accounting::held(self.worker).bytes + due_bytes
        }
    }
}

/// A sender and a worker that have not begun are sound.
pub proof fn law_start_is_sound<W: WalTypes>(flow: Flow<W>)
    requires
        flow.worker.well_formed(),
        flow.worker.stage is Receive,
        flow.state.failure is None,
        flow.state.queued_bytes.used == 0,
        flow.queue.len() == 0,
        flow.due.len() == 0,
    ensures
        flow.sound(),
{
}

proof fn lemma_queue_bytes_push<W: WalTypes>(queue: Seq<SeqRequest<W>>, request: SeqRequest<W>)
    ensures
        queue_bytes(queue.push(request)) == queue_bytes(queue) + crate::wal::accounting::brought(
            request.req,
        ).bytes,
    decreases queue.len(),
{
    let pushed = queue.push(request);
    if queue.len() == 0 {
        assert(pushed.drop_first() =~= queue);
    } else {
        lemma_queue_bytes_push(queue.drop_first(), request);
        assert(pushed.drop_first() =~= queue.drop_first().push(request));
    }
}

/// Performing the first effect leaves the rest due.
proof fn lemma_due_first<W: WalTypes>(due: Seq<Effect<W>>)
    requires
        due.len() > 0,
    ensures
        crate::wal::accounting::returned_by(due).bytes == crate::wal::accounting::returned(
            due.first(),
        ).bytes + crate::wal::accounting::returned_by(due.drop_first()).bytes,
    decreases due.len(),
{
    if due.len() > 1 {
        lemma_due_first(due.drop_last());
        assert(due.drop_first().drop_last() =~= due.drop_last().drop_first());
    } else {
        assert(due.drop_first() =~= Seq::empty());
        assert(due.drop_last() =~= Seq::empty());
    }
}

proof fn lemma_send_is_sound<W: WalTypes>(
    before: Flow<W>,
    req: WorkerRequest<W>,
    now: u64,
    after: Flow<W>,
)
    requires
        before.sound(),
        (Turn::Send { req, now }).leads(before, after),
    ensures
        after.sound(),
{
    lemma_queue_bytes_push(before.queue, after.queue.last());
}

proof fn lemma_work_is_sound<W: WalTypes>(
    before: Flow<W>,
    event: Event<W>,
    step: StepView<W>,
    after: Flow<W>,
)
    requires
        before.sound(),
        (Turn::Work { event, step }).leads(before, after),
    ensures
        after.sound(),
{
    let v = before.worker;
    crate::wal::step_shape::lemma_files_follow(v, event, step);
    if v.stage is Drain {
        crate::wal::accounting::law_failure_settles_slots(v, event, step);
    } else if step.state.stage is Drain {
        crate::wal::accounting::law_failure_settles_slots(v, event, step);
        assert(!crate::wal::step_shape::reports_stop(step.effects.drop_last()));
    } else {
        crate::wal::accounting::law_step_accounts(v, event, step);
        assert(after.state.queued_bytes.used == queue_bytes(after.queue)
            + crate::wal::accounting::held(after.worker).bytes
            + crate::wal::accounting::returned_by(after.due).bytes);
    }
}

proof fn lemma_perform_is_sound<W: WalTypes>(before: Flow<W>, after: Flow<W>)
    requires
        before.sound(),
        Turn::<W>::Perform.leads(before, after),
    ensures
        after.sound(),
{
    lemma_due_first(before.due);
    let first = before.due.first();
    assert forall|i: int| 0 <= i < after.due.len() implies #[trigger] after.due[i] == before.due[i
        + 1] by {}
    if first is Stopped && before.worker.stage is Drain {
        if before.due.len() > 1 {
            assert(before.due.drop_last()[0] == first);
        }
    }
    if after.due.len() > 0 {
        assert(after.due.last() == before.due.last());
        assert forall|i: int| 0 <= i < after.due.len() - 1 implies #[trigger] after.due.drop_last()[i]
            == before.due.drop_last()[i + 1] by {}
    }
}

/// Whatever turn is taken, the reserved bytes stay accounted for: while the
/// worker works, they are exactly those of the data that is queued, held by
/// the worker, or about to be returned; once it has failed, there are none.
pub proof fn law_turn_is_sound<W: WalTypes>(turn: Turn<W>, before: Flow<W>, after: Flow<W>)
    requires
        before.sound(),
        turn.leads(before, after),
    ensures
        after.sound(),
{
    match turn {
        Turn::Send { req, now } => {
            lemma_send_is_sound(before, req, now, after);
        },
        Turn::Close => {},
        Turn::Work { event, step } => {
            lemma_work_is_sound(before, event, step, after);
        },
        Turn::Perform => {
            lemma_perform_is_sound(before, after);
        },
    }
}

/// The state of affairs after each of a number of turns.
pub open spec fn is_history<W: WalTypes>(flows: Seq<Flow<W>>, turns: Seq<Turn<W>>) -> bool {
    &&& flows.len() == turns.len() + 1
    &&& forall|i: int|
        0 <= i < turns.len() ==> (#[trigger] turns[i]).leads(flows[i], flows[i + 1])
}

/// In whatever order the sender and the worker take turns, the reserved bytes
/// stay accounted for.
pub proof fn law_history_is_sound<W: WalTypes>(flows: Seq<Flow<W>>, turns: Seq<Turn<W>>, n: nat)
    requires
        is_history(flows, turns),
        flows[0].sound(),
        n <= turns.len(),
    ensures
        flows[n as int].sound(),
    decreases n,
{
    if n > 0 {
        law_history_is_sound(flows, turns, (n - 1) as nat);
        assert(turns[n - 1].leads(flows[n - 1], flows[n as int]));
        law_turn_is_sound(turns[n - 1], flows[n - 1], flows[n as int]);
    }
}

/// The worker never returns more bytes than are reserved.
pub proof fn law_release_is_covered<W: WalTypes>(flow: Flow<W>, bytes: usize)
    requires
        flow.sound(),
        flow.due.len() > 0,
        flow.due.first() == (Effect::<W>::Release { bytes }),
    ensures
        bytes <= flow.state.queued_bytes.used,
{
    lemma_due_first(flow.due);
}

impl<W: WalTypes> Flow<W> {
    /// Nothing is left to be done.
    pub open spec fn at_rest(self) -> bool {
        &&& self.due.len() == 0
        &&& self.queue.len() == 0
        &&& self.worker.stage is Receive || self.worker.stage is Stopped
    }
}

/// When everything that was sent has been dealt with, nothing is reserved,
/// and no request has to wait.
pub proof fn law_nothing_is_reserved_at_rest<W: WalTypes>(flow: Flow<W>, req: WorkerRequest<W>)
    requires
        flow.sound(),
        flow.at_rest(),
    ensures
        flow.state.queued_bytes.used == 0,
        !crate::wal::flush_client::blocks(req, flow.state),
{
}

/// Once the worker has failed, nothing is reserved, whatever is sent
/// afterwards and while the worker takes off its queue what is left in it:
/// no request has to wait any more.
pub proof fn law_nothing_is_reserved_after_a_failure<W: WalTypes>(
    flows: Seq<Flow<W>>,
    turns: Seq<Turn<W>>,
    req: WorkerRequest<W>,
    n: nat,
)
    requires
        is_history(flows, turns),
        flows[0].sound(),
        flows[0].state.failure is Some,
        n <= turns.len(),
    ensures
        flows[n as int].state.failure == flows[0].state.failure,
        flows[n as int].state.queued_bytes.used == 0,
        !crate::wal::flush_client::blocks(req, flows[n as int].state),
    decreases n,
{
    law_history_is_sound(flows, turns, n);
    if n > 0 {
        law_nothing_is_reserved_after_a_failure(flows, turns, req, (n - 1) as nat);
        law_history_is_sound(flows, turns, (n - 1) as nat);
        let before = flows[n - 1];
        assert(turns[n - 1].leads(before, flows[n as int]));
        if turns[n - 1] is Perform {
            assert(!(before.due[0] is Stopped));
        }
    }
}

/// A turn of the worker, other than an interrupted write.
pub open spec fn gets_on<W: WalTypes>(turn: Turn<W>) -> bool {
    match turn {
        Turn::Work { event, .. } => !crate::wal::progress::is_interruption(event),
        Turn::Perform => true,
        _ => false,
    }
}

/// What the worker's surroundings may report next, if all goes well.
spec fn next_event<W: WalTypes>(flow: Flow<W>) -> Event<W> {
    match flow.worker.stage {
        Stage::Receive => Event::Received { request: flow.queue.first(), now: 0 },
        Stage::Collect => Event::ReceivedNone { now: 0 },
        Stage::Write => Event::Wrote { result: Ok(1), now: 0 },
        Stage::Sync { .. } => Event::Synced { result: Ok(()), now: 0 },
        Stage::Remove => Event::Removed { result: Ok(()) },
        Stage::Create => Event::Created { result: Ok(vstd::pervasive::arbitrary()) },
        Stage::SyncDir => Event::DirSynced { result: Ok(()) },
        Stage::WriteLeading => Event::LeadingWritten {
            result: Ok(()),
            kept: flow.worker.roll->0.leading_bytes@.len(),
        },
        _ => Event::Drained {
            request: if flow.queue.len() > 0 {
                Some(flow.queue.first())
            } else {
                None
            },
        },
    }
}

/// How the worker reacts to it.
spec fn next_step<W: WalTypes>(flow: Flow<W>) -> StepView<W> {
    let v = flow.worker;
    match next_event(flow) {
        Event::Received { request, now } => v.received(request, now),
        Event::ReceivedNone { now } => v.start_write(now),
        Event::Wrote { now, .. } => v.advanced(1, now),
        Event::Synced { result, now } => v.synced(result, now),
        Event::Removed { result } => v.removed(result),
        Event::Created { result } => v.created(result),
        Event::DirSynced { result } => v.dir_synced(result),
        Event::LeadingWritten { result, .. } => v.leading_written(result),
        Event::Drained { request } => v.drained(request),
        _ => v.closed(),
    }
}

/// As long as a sender has to wait, the worker has a turn to take that is not
/// an interrupted write: the two never wait for each other.
pub proof fn law_nobody_waits_in_vain<W: WalTypes>(flow: Flow<W>, req: WorkerRequest<W>)
    requires
        flow.sound(),
        crate::wal::flush_client::blocks(req, flow.state),
        flow.worker.writes.len() <= usize::MAX,
    ensures
        exists|turn: Turn<W>, after: Flow<W>|
            gets_on(turn) && #[trigger] turn.leads(flow, after),
{
    let v = flow.worker;
    if flow.due.len() > 0 {
        let after = Flow {
            state: performed(flow.state, flow.due.first()),
            due: flow.due.drop_first(),
            ..flow
        };
        assert(gets_on(Turn::<W>::Perform));
        assert(Turn::<W>::Perform.leads(flow, after));
    } else {
        let event = next_event(flow);
        let step = next_step(flow);
        let turn = Turn::Work { event, step };
        let after = Flow {
            queue: if crate::wal::progress::takes_request(event) {
                flow.queue.drop_first()
            } else {
                flow.queue
            },
            worker: step.state,
            due: step.effects,
            ..flow
        };
        if v.stage is Write {
            crate::wal::vectored_write::lemma_offered_is_prefix(v.cursor, v.writes);
        }
        assert(event.leads_to(v, step)) by {
            reveal(Event::leads_to);
        }
        assert(gets_on(turn));
        assert(turn.leads(flow, after));
    }
}

/// Less is left for the worker to do after a turn of its than before.
pub open spec fn less_is_left<W: WalTypes>(before: Flow<W>, after: Flow<W>) -> bool {
    ||| after.queue.len() < before.queue.len()
    ||| {
        &&& after.queue.len() == before.queue.len()
        &&& crate::wal::progress::nearer(before.worker, after.worker)
    }
    ||| {
        &&& after.queue.len() == before.queue.len()
        &&& after.worker == before.worker
        &&& after.due.len() < before.due.len()
    }
}

/// With every turn of the worker but an interrupted write, less is left for
/// it to do.
pub proof fn law_less_is_left<W: WalTypes>(turn: Turn<W>, before: Flow<W>, after: Flow<W>)
    requires
        before.sound(),
        turn.leads(before, after),
        gets_on(turn),
    ensures
        less_is_left(before, after),
{
    if let Turn::Work { event, step } = turn {
        if !crate::wal::progress::takes_request(event) {
            crate::wal::progress::law_worker_gets_on(before.worker, event, step);
        }
    }
}

proof fn lemma_sender_goes_on<W: WalTypes>(
    flows: spec_fn(nat) -> Flow<W>,
    turns: spec_fn(nat) -> Turn<W>,
    req: WorkerRequest<W>,
    n: nat,
) -> (m: nat)
    requires
        flows(n).sound(),
        forall|i: nat|
            crate::wal::flush_client::blocks(req, flows(i).state) ==> gets_on(
                #[trigger] turns(i),
            ) && turns(i).leads(flows(i), flows((i + 1) as nat)),
    ensures
        m >= n,
        flows(m).sound(),
        !crate::wal::flush_client::blocks(req, flows(m).state),
    decreases
            flows(n).queue.len(),
            crate::wal::progress::phases_left(flows(n).worker.stage),
            crate::wal::progress::left_in_phase(flows(n).worker),
            flows(n).due.len(),
{
    if crate::wal::flush_client::blocks(req, flows(n).state) {
        let next = (n + 1) as nat;
        assert(gets_on(turns(n)));
        law_turn_is_sound(turns(n), flows(n), flows(next));
        law_less_is_left(turns(n), flows(n), flows(next));
        lemma_sender_goes_on(flows, turns, req, next)
    } else {
        n
    }
}

/// A sender that has to wait goes on in the end: if, as long as it waits, the
/// worker takes turns that are not interrupted writes, then there comes a
/// time at which it need not wait.
pub proof fn law_a_waiting_sender_goes_on<W: WalTypes>(
    flows: spec_fn(nat) -> Flow<W>,
    turns: spec_fn(nat) -> Turn<W>,
    req: WorkerRequest<W>,
)
    requires
        flows(0).sound(),
        forall|i: nat|
            crate::wal::flush_client::blocks(req, flows(i).state) ==> gets_on(
                #[trigger] turns(i),
            ) && turns(i).leads(flows(i), flows((i + 1) as nat)),
    ensures
        exists|n: nat|
            !crate::wal::flush_client::blocks(req, (#[trigger] flows(n)).state),
{
    let n = lemma_sender_goes_on(flows, turns, req, 0);
    assert(!crate::wal::flush_client::blocks(req, flows(n).state));
}

} // verus!
