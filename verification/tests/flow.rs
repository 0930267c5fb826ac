use std::collections::VecDeque;
use std::io;
use std::sync::Arc;

use chunked_wal::wal::file_entry::FileEntry;
use chunked_wal::wal::file_persisted::ChunkPersistedCallback;
use chunked_wal::wal::flush_client::FlushClient;
use chunked_wal::wal::flush_client::SendStep;
use chunked_wal::wal::flush_request::SeqRequest;
use chunked_wal::wal::flush_request::WorkerRequest;
use chunked_wal::wal::flush_request::WriteRequest;
use chunked_wal::wal::flush_worker::FlushWorker;
use chunked_wal::wal::worker_state::WorkerState;
use chunked_wal::wal::worker_step::Action;
use chunked_wal::wal::worker_step::Effect;
use chunked_wal::wal::worker_step::Step;
use chunked_wal::Error;
use chunked_wal::WalTypes;

struct TestWal;

impl WalTypes for TestWal {
    type Checkpoint = ();
    type Callback = u32;
    type PersistedFn = ();
    type File = ();
    type Slot = ();
    type StatReply = ();
}

fn write(data: &[u8]) -> WorkerRequest<TestWal> {
    WorkerRequest::Write(WriteRequest {
        upto_offset: 0,
        data: data.to_vec(),
        sync: false,
        callback: None,
    })
}

/// A sender and a worker that take turns.
struct Flow {
    client: FlushClient,
    state: WorkerState,
    queue: VecDeque<SeqRequest<TestWal>>,
    worker: FlushWorker<TestWal>,
    action: Action<TestWal>,
    file: Vec<u8>,
    /// How many more writes succeed.
    writes_left: usize,
}

impl Flow {
    fn new(limit: usize, writes_left: usize) -> Self {
        let entry = FileEntry::new(
            0,
            Arc::new(()),
            ChunkPersistedCallback::new(Arc::new(()), None),
        );
        Flow {
            client: FlushClient::new(),
            state: WorkerState::new(limit),
            queue: VecDeque::new(),
            worker: FlushWorker::new(entry, 10, 4),
            action: Action::Receive,
            file: Vec::new(),
            writes_left,
        }
    }

    /// Lets the worker take a turn; tells whether it had one to take.
    fn work(&mut self) -> bool {
        let Step { effects, action } = match &self.action {
            Action::Receive => match self.queue.pop_front() {
                Some(request) => self.worker.received(request, 0),
                None if self.client.open => return false,
                None => self.worker.closed(),
            },
            Action::ReceiveTimeout { .. } => match self.queue.pop_front() {
                Some(request) => self.worker.received_more(request, 0),
                None => self.worker.received_none(0),
            },
            Action::Write { .. } => {
                let result = if self.writes_left == 0 {
                    Err(Error::new(io::ErrorKind::StorageFull, "no space"))
                } else {
                    self.writes_left -= 1;
                    let offered = self.worker.write_slices().concat();
                    self.file.extend_from_slice(&offered);
                    Ok(offered.len())
                };
                self.worker.wrote(result, 0)
            }
            Action::Drain => self.worker.drained(self.queue.pop_front()),
            Action::Quit => return false,
            _ => unreachable!("nothing else is asked for"),
        };
        for effect in effects {
            match effect {
                Effect::Release { bytes } => {
                    assert!(bytes <= self.state.queued_bytes.used());
                    self.state.release(bytes);
                }
                Effect::Complete { seq } => {
                    assert!(matches!(action, Action::Receive));
                    self.state.complete(seq);
                }
                Effect::Stopped { failure } => self.state.stop(failure),
                _ => {}
            }
        }
        self.action = action;
        true
    }

    /// Sends a request, letting the worker go on while the request has to
    /// wait; tells how often it had to.
    fn send(&mut self, mut req: WorkerRequest<TestWal>) -> usize {
        let mut waits = 0;
        loop {
            match self.client.send(req, &mut self.state, 0) {
                SendStep::Send { request, .. } => {
                    self.queue.push_back(request);
                    return waits;
                }
                SendStep::Blocked { req: again } => {
                    assert!(self.work(), "nobody waits for a worker that has nothing to do");
                    waits += 1;
                    req = again;
                }
                SendStep::Rejected { .. } => panic!("the client is open"),
            }
        }
    }

    fn finish(&mut self) {
        self.client.close();
        while self.work() {}
        assert!(matches!(self.action, Action::Quit));
    }
}

#[test]
fn test_bounded_queue_writes_everything_sent() {
    for limit in [1, 2, 7, 1000] {
        let mut flow = Flow::new(limit, usize::MAX);
        let mut expected = Vec::new();
        let mut waits = 0;
        for i in 0..64u8 {
            let data = vec![i; (i % 5) as usize];
            expected.extend_from_slice(&data);
            waits += flow.send(write(&data));
        }
        assert_eq!(limit < 1000, waits > 0);

        flow.finish();
        assert_eq!(expected, flow.file);
        assert_eq!(0, flow.state.queued_bytes.used());
        assert_eq!(64, flow.state.done_seq());
        assert!(matches!(flow.client.wait_idle(&flow.state), Some(Ok(()))));
    }
}

#[test]
fn test_nothing_stays_reserved_after_a_failure() {
    let mut flow = Flow::new(10, 0);
    flow.send(write(b"lost"));
    while flow.state.failure.is_none() {
        assert!(flow.work());
    }
    assert_eq!(0, flow.state.queued_bytes.used());

    // Requests sent to a failed worker neither wait nor reserve anything.
    for _ in 0..3 {
        assert_eq!(0, flow.send(write(b"sixsix")));
        assert_eq!(0, flow.state.queued_bytes.used());
    }
    flow.finish();
    assert_eq!(0, flow.state.queued_bytes.used());
    assert!(flow.queue.is_empty());
    assert!(flow.file.is_empty());

    let err = flow.client.wait_idle(&flow.state).unwrap().unwrap_err();
    assert_eq!(io::ErrorKind::StorageFull, err.kind());
}

#[test]
fn test_bytes_are_reserved_until_they_are_written() {
    let mut flow = Flow::new(100, usize::MAX);
    flow.send(write(b"aaa"));
    flow.send(write(b"bb"));
    assert_eq!(5, flow.state.queued_bytes.used());

    while !matches!(flow.action, Action::Write { .. }) {
        assert!(flow.work());
        assert_eq!(5, flow.state.queued_bytes.used());
    }
    assert!(flow.work());
    assert_eq!(0, flow.state.queued_bytes.used());
    assert_eq!(b"aaabb".to_vec(), flow.file);
    assert!(!flow.work());
}

#[test]
fn test_completed_requests_are_written() {
    for writes_left in [0, 1, 3, usize::MAX] {
        let mut flow = Flow::new(usize::MAX, writes_left);
        // What the log begins with once a number is completed.
        let mut upto = vec![Vec::new()];
        for i in 0..20u8 {
            let data = vec![i; (i % 4) as usize];
            flow.send(write(&data));
            upto.push([upto.last().unwrap().clone(), data].concat());
            if i % 3 == 0 {
                flow.work();
            }
        }

        let mut done_at_failure = None;
        loop {
            let done = flow.state.done_seq();
            assert!(done <= flow.client.sent_seq());
            assert!(flow.file.starts_with(&upto[done as usize]));
            if let Some(Ok(())) = flow.client.wait_idle(&flow.state) {
                assert!(flow.queue.is_empty());
                assert!(matches!(flow.action, Action::Receive));
                assert_eq!(upto[20], flow.file);
            }
            if flow.state.failure.is_some() {
                assert_eq!(done, *done_at_failure.get_or_insert(done));
            }
            if !flow.work() {
                break;
            }
        }
        assert_eq!(writes_left < usize::MAX, done_at_failure.is_some());
        assert_eq!(
            writes_left == usize::MAX,
            matches!(flow.client.wait_idle(&flow.state), Some(Ok(())))
        );
    }
}
