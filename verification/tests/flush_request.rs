use std::io;
use std::sync::mpsc::sync_channel;
use std::sync::mpsc::SyncSender;
use std::sync::Arc;

use chunked_wal::chunk::file_slot::FileSlot;
use chunked_wal::wal::file_persisted::ChunkPersistedCallback;
use chunked_wal::wal::flush_request::RollRequest;
use chunked_wal::wal::flush_request::SeqRequest;
use chunked_wal::wal::flush_request::WorkerRequest;
use chunked_wal::wal::flush_request::WriteRequest;
use chunked_wal::Error;
use chunked_wal::FlushStat;
use chunked_wal::WalTypes;

struct TestWal;

impl WalTypes for TestWal {
    type Checkpoint = String;
    type Callback = SyncSender<Result<(), Error>>;
    type PersistedFn = ();
    type File = ();
    type Slot = FileSlot<()>;
    type StatReply = SyncSender<Vec<FlushStat>>;
}

fn callback() -> ChunkPersistedCallback<TestWal> {
    ChunkPersistedCallback::new(Arc::new(()), None)
}

#[test]
fn test_flush_stat_offset_sync_id() {
    let stat = FlushStat {
        starting_offset: 12,
        sync_id: 34,
        ino: 56,
    };

    assert_eq!((12, 34), stat.offset_sync_id());
    assert_eq!(
        "FlushStat { starting_offset: 12, sync_id: 34, ino: 56 }",
        format!("{stat:?}")
    );
}

#[test]
fn test_request_debug() -> Result<(), io::Error> {
    let (tx, _rx) = sync_channel(1);
    let write = WriteRequest::<TestWal> {
        upto_offset: 99,
        data: vec![1, 2, 3],
        sync: true,
        callback: Some(tx),
    };
    assert_eq!(
        "WriteRequest { upto_offset: 99, data_len: 3, sync: true, has_callback: true }",
        write.debug_string()
    );

    let req = WorkerRequest::Write(write);
    assert_eq!(
        "Write(WriteRequest { upto_offset: 99, data_len: 3, sync: true, has_callback: true })",
        req.debug_string()
    );

    let seq_req = SeqRequest {
        seq: 7,
        queued_at: 1_000,
        req,
    };
    let seq_debug = seq_req.debug_string();
    assert!(seq_debug.contains("SeqRequest"));
    assert!(seq_debug.contains("seq: 7"));
    assert!(seq_debug.contains(".."));
    assert!(matches!(seq_req.req, WorkerRequest::Write(_)));

    let remove = WorkerRequest::<TestWal>::RemoveChunks {
        chunk_paths: vec!["a".to_string(), "b".to_string()],
    };
    assert_eq!(
        "RemoveChunks { chunk_paths: [\"a\", \"b\"] }",
        remove.debug_string()
    );

    let (tx, _rx) = sync_channel(1);
    let stat = WorkerRequest::<TestWal>::GetFlushStat { tx };
    assert_eq!("GetFlushStat { .. }", stat.debug_string());

    let roll = WorkerRequest::<TestWal>::Roll(RollRequest {
        starting_offset: 12,
        path: "some/chunk".to_string(),
        leading_bytes: vec![1, 2, 3],
        file_slot: FileSlot::pending(),
        on_persisted: callback(),
    });
    assert_eq!(
        "Roll(RollRequest { starting_offset: ChunkId(12), \
         path: \"some/chunk\", leading_bytes_len: 3, .. })",
        roll.debug_string()
    );

    Ok(())
}

#[test]
fn test_request_debug_edge_cases() {
    let remove = WorkerRequest::<TestWal>::RemoveChunks {
        chunk_paths: vec![],
    };
    assert_eq!("RemoveChunks { chunk_paths: [] }", remove.debug_string());

    let remove = WorkerRequest::<TestWal>::RemoveChunks {
        chunk_paths: vec!["a\n\"".to_string()],
    };
    assert_eq!(
        "RemoveChunks { chunk_paths: [\"a\\n\\\"\"] }",
        remove.debug_string()
    );

    let write = WriteRequest::<TestWal> {
        upto_offset: 0,
        data: vec![],
        sync: false,
        callback: None,
    };
    assert_eq!(
        "WriteRequest { upto_offset: 0, data_len: 0, sync: false, has_callback: false }",
        write.debug_string()
    );

    let seq_req = SeqRequest {
        seq: 7,
        queued_at: 1_000,
        req: WorkerRequest::Write(write),
    };
    assert_eq!(
        "SeqRequest { seq: 7, queued_at: 1000, .. }",
        seq_req.debug_string()
    );
}
