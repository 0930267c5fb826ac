use std::io;

use chunked_wal::wal::flush_client::FlushClient;
use chunked_wal::wal::flush_client::SendStep;
use chunked_wal::wal::flush_request::WorkerRequest;
use chunked_wal::wal::flush_request::WriteRequest;
use chunked_wal::wal::worker_state::WorkerState;
use chunked_wal::Error;
use chunked_wal::WalTypes;

struct TestWal;

impl WalTypes for TestWal {
    type Checkpoint = ();
    type Callback = ();
    type PersistedFn = ();
    type File = ();
    type Slot = ();
    type StatReply = ();
}

fn write(len: usize) -> WorkerRequest<TestWal> {
    WorkerRequest::Write(WriteRequest {
        upto_offset: 0,
        data: vec![0; len],
        sync: false,
        callback: None,
    })
}

#[test]
fn test_requests_are_numbered_in_order() {
    let mut client = FlushClient::new();
    let mut state = WorkerState::new(100);
    assert_eq!(0, client.sent_seq());

    for expected in 1..=3 {
        match client.send(write(10), &mut state, 5) {
            SendStep::Send { request, reserved } => {
                assert_eq!(expected, request.seq);
                assert_eq!(5, request.queued_at);
                assert_eq!(10, reserved);
            }
            _ => panic!("must be sent"),
        }
    }
    assert_eq!(3, client.sent_seq());
    assert_eq!(30, state.queued_bytes.used());

    match client.send(WorkerRequest::<TestWal>::GetFlushStat { tx: () }, &mut state, 6) {
        SendStep::Send { request, reserved } => {
            assert_eq!(4, request.seq);
            assert_eq!(0, reserved);
        }
        _ => panic!("must be sent"),
    }
    assert_eq!(30, state.queued_bytes.used());
}

#[test]
fn test_full_queue_blocks_the_sender() {
    let mut client = FlushClient::new();
    let mut state = WorkerState::new(10);

    assert!(matches!(
        client.send(write(4096), &mut state, 0),
        SendStep::Send { reserved: 4096, .. }
    ));
    let req = match client.send(write(1), &mut state, 0) {
        SendStep::Blocked { req } => req,
        _ => panic!("must be blocked"),
    };
    assert_eq!(1, client.sent_seq());

    state.queued_bytes.release(4096);
    assert!(matches!(
        client.send(req, &mut state, 0),
        SendStep::Send { reserved: 1, .. }
    ));
    assert_eq!(2, client.sent_seq());
}

#[test]
fn test_closed_client_rejects_requests() {
    let mut client = FlushClient::new();
    let mut state = WorkerState::new(100);
    client.close();

    match client.send(write(10), &mut state, 0) {
        SendStep::Rejected { error } => {
            assert_eq!(io::ErrorKind::Other, error.kind());
            assert_eq!(
                "Failed to send request: WAL is shut down",
                error.to_string()
            );
        }
        _ => panic!("must be rejected"),
    }
    assert_eq!(0, client.sent_seq());
    assert_eq!(0, state.queued_bytes.used());
}

#[test]
fn test_failed_send_returns_reserved_bytes() {
    let mut client = FlushClient::new();
    let mut state = WorkerState::new(100);
    client.send(write(10), &mut state, 0);
    client.send(write(20), &mut state, 0);

    let error = FlushClient::send_failed(20, "sending on a closed channel", &mut state);
    assert_eq!(io::ErrorKind::Other, error.kind());
    assert_eq!(
        "Failed to send request: sending on a closed channel",
        error.to_string()
    );
    assert_eq!(10, state.queued_bytes.used());

    state.stop(None);
    FlushClient::send_failed(10, "closed", &mut state);
    assert_eq!(0, state.queued_bytes.used());
}

#[test]
fn test_wait_idle_follows_the_worker() {
    let mut client = FlushClient::new();
    let mut state = WorkerState::new(100);
    assert!(matches!(client.wait_idle(&state), Some(Ok(()))));

    client.send(write(10), &mut state, 0);
    client.send(write(10), &mut state, 0);
    assert!(client.wait_idle(&state).is_none());

    state.complete(1);
    assert_eq!(1, client.done_seq(&state));
    assert!(client.wait_idle(&state).is_none());

    state.complete(2);
    assert!(matches!(client.wait_idle(&state), Some(Ok(()))));
}

#[test]
fn test_worker_failure_answers_every_later_wait() {
    let mut client = FlushClient::new();
    let mut state = WorkerState::new(100);
    client.send(write(10), &mut state, 0);

    state.stop(Some(Error::new(io::ErrorKind::NotFound, "missing")));
    assert_eq!(0, state.queued_bytes.used());

    for _ in 0..2 {
        let err = client.wait_idle(&state).unwrap().unwrap_err();
        assert_eq!(io::ErrorKind::NotFound, err.kind());
        assert_eq!("missing", err.to_string());
        client.send(write(10), &mut state, 0);
    }
}

#[test]
fn test_closed_client_needs_no_number() {
    let mut client = FlushClient {
        open: false,
        sent_seq: u64::MAX,
    };
    let mut state = WorkerState::new(100);

    assert!(matches!(
        client.send(write(10), &mut state, 0),
        SendStep::Rejected { .. }
    ));
    assert_eq!(u64::MAX, client.sent_seq());
}
