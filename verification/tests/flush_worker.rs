use std::collections::VecDeque;
use std::io;
use std::sync::Arc;
use std::sync::Mutex;

use chunked_wal::chunk::file_slot::FileSlot;
use chunked_wal::wal::batch_metrics::BatchMetrics;
use chunked_wal::wal::batch_metrics::BatchTiming;
use chunked_wal::wal::file_entry::FileEntry;
use chunked_wal::wal::file_persisted::ChunkPersistedCallback;
use chunked_wal::wal::flush_request::RollRequest;
use chunked_wal::wal::flush_request::SeqRequest;
use chunked_wal::wal::flush_request::WorkerRequest;
use chunked_wal::wal::flush_request::WriteRequest;
use chunked_wal::wal::flush_worker::FlushWorker;
use chunked_wal::wal::queued_write::QueuedWrite;
use chunked_wal::wal::vectored_write::WriteCursor;
use chunked_wal::wal::vectored_write::MAX_VECTORED_WRITE_SLICES;
use chunked_wal::wal::worker_step::Action;
use chunked_wal::wal::worker_step::Effect;
use chunked_wal::wal::worker_step::Step;
use chunked_wal::wal::write_batch::WriteBatch;
use chunked_wal::Error;
use chunked_wal::WalTypes;

type Slot = Arc<Mutex<FileSlot<&'static str>>>;

struct TestWal;

impl WalTypes for TestWal {
    type Checkpoint = String;
    type Callback = u32;
    type PersistedFn = &'static str;
    type File = &'static str;
    type Slot = Slot;
    type StatReply = &'static str;
}

fn entry(starting_offset: u64, name: &'static str) -> FileEntry<TestWal> {
    FileEntry::new(
        starting_offset,
        Arc::new(name),
        ChunkPersistedCallback::new(Arc::new("persisted"), None),
    )
}

fn worker(flush_batch_wait: u64) -> FlushWorker<TestWal> {
    FlushWorker::new(entry(0, "first"), flush_batch_wait, 8)
}

fn write_request(seq: u64) -> SeqRequest<TestWal> {
    SeqRequest {
        seq,
        queued_at: 0,
        req: WorkerRequest::Write(WriteRequest {
            upto_offset: seq,
            data: vec![seq as u8],
            sync: false,
            callback: None,
        }),
    }
}

fn write(data: &[u8], sync: bool, callback: Option<u32>) -> WorkerRequest<TestWal> {
    WorkerRequest::Write(WriteRequest {
        upto_offset: 0,
        data: data.to_vec(),
        sync,
        callback,
    })
}

fn roll(starting_offset: u64, path: &str, leading: &[u8], slot: &Slot) -> WorkerRequest<TestWal> {
    WorkerRequest::Roll(RollRequest {
        starting_offset,
        path: path.to_string(),
        leading_bytes: leading.to_vec(),
        file_slot: slot.clone(),
        on_persisted: ChunkPersistedCallback::new(
            Arc::new("persisted"),
            Some(Arc::new("state".to_string())),
        ),
    })
}

fn numbered(reqs: Vec<WorkerRequest<TestWal>>) -> VecDeque<SeqRequest<TestWal>> {
    reqs.into_iter()
        .enumerate()
        .map(|(i, req)| SeqRequest {
            seq: i as u64 + 1,
            queued_at: 0,
            req,
        })
        .collect()
}

/// Runs a worker on files in memory until it quits, and logs what it does.
struct Surroundings {
    queue: VecDeque<SeqRequest<TestWal>>,
    log: Vec<String>,
    files: Vec<(&'static str, Vec<u8>)>,
    /// How many bytes of each file are durable.
    durable: Vec<usize>,
    /// Outcomes of vectored writes; once used up, everything is written.
    writes: VecDeque<Result<usize, Error>>,
    /// Number of the operation that fails, counting from one.
    fail_at: usize,
    operations: usize,
}

impl Surroundings {
    fn new(reqs: Vec<WorkerRequest<TestWal>>) -> Self {
        Surroundings {
            queue: numbered(reqs),
            log: Vec::new(),
            files: vec![("first", Vec::new())],
            durable: vec![0],
            writes: VecDeque::new(),
            fail_at: 0,
            operations: 0,
        }
    }

    fn file(&mut self, name: &str) -> &mut Vec<u8> {
        &mut self.files.iter_mut().find(|f| f.0 == name).unwrap().1
    }

    fn content(&mut self, name: &str) -> String {
        String::from_utf8(self.file(name).clone()).unwrap()
    }

    fn outcome(&mut self) -> Result<(), Error> {
        self.operations += 1;
        if self.operations == self.fail_at {
            Err(Error::new(io::ErrorKind::StorageFull, "no space"))
        } else {
            Ok(())
        }
    }

    fn perform(&mut self, worker: &FlushWorker<TestWal>, effects: Vec<Effect<TestWal>>) {
        for effect in effects {
            let line = match effect {
                Effect::Release { bytes } => format!("release {bytes}"),
                Effect::RecordBatch { metrics } => format!("record {}", metrics.size),
                Effect::Persisted { call } => format!(
                    "{} {} {} {:?}",
                    call.callback,
                    call.persisted.starting_offset,
                    call.persisted.synced_offset,
                    call.state,
                ),
                Effect::Notify { callback, result } => match result {
                    Ok(()) => format!("notify {callback} ok"),
                    Err(e) => format!("notify {callback} {:?} {}", e.kind(), e.to_string()),
                },
                Effect::ReplyStat { tx } => {
                    let inos = (0..worker.files.len() as u64).collect();
                    format!("{tx} {:?}", worker.flush_stats(&inos))
                }
                Effect::Publish { slot, file } => {
                    let line = format!("publish {file}");
                    slot.lock().unwrap().set(file);
                    line
                }
                Effect::FailSlot { slot, error } => {
                    slot.lock().unwrap().fail(&error);
                    format!("fail slot {}", error.to_string())
                }
                Effect::Complete { seq } => format!("complete {seq}"),
                Effect::Stopped { failure } => match failure {
                    None => "stopped".to_string(),
                    Some(e) => format!("stopped {:?} {}", e.kind(), e.to_string()),
                },
            };
            self.log.push(line);
        }
    }

    fn run(&mut self, worker: &mut FlushWorker<TestWal>) {
        let mut step = self.receive(worker);
        loop {
            let Step { effects, action } = step;
            self.perform(worker, effects);
            step = match action {
                Action::Receive => self.receive(worker),
                Action::ReceiveTimeout { .. } => match self.queue.pop_front() {
                    Some(request) => worker.received_more(request, 0),
                    None => worker.received_none(0),
                },
                Action::Write { file } => {
                    let offered = worker.write_slices().concat();
                    let result = self.writes.pop_front().unwrap_or(Ok(offered.len()));
                    if let Ok(n) = &result {
                        self.file(*file).extend_from_slice(&offered[..*n]);
                    }
                    worker.wrote(result, 0)
                }
                Action::Sync { file } => {
                    self.log.push(format!("sync {file}"));
                    let result = self.outcome();
                    if result.is_ok() {
                        let i = self.files.iter().position(|f| f.0 == *file).unwrap();
                        self.durable[i] = self.files[i].1.len();
                    }
                    worker.synced(result, 0)
                }
                Action::Remove { path } => {
                    self.log.push(format!("remove {path}"));
                    let result = self.outcome();
                    worker.removed(result)
                }
                Action::Create { path } => {
                    self.log.push(format!("create {path}"));
                    let result = self.outcome();
                    if result.is_ok() {
                        self.files.push(("second", Vec::new()));
                        self.durable.push(0);
                    }
                    self.assert_predecessors_durable();
                    worker.created(result.map(|()| Arc::new("second")))
                }
                Action::SyncDir => {
                    self.log.push("sync dir".to_string());
                    let result = self.outcome();
                    worker.dir_synced(result)
                }
                Action::WriteLeading { file } => {
                    self.log.push(format!("write leading {file}"));
                    let result = self.outcome();
                    if result.is_ok() {
                        let bytes = worker.leading_bytes().to_vec();
                        self.file(*file).extend_from_slice(&bytes);
                    }
                    worker.leading_written(result)
                }
                Action::Drain => worker.drained(self.queue.pop_front()),
                Action::Quit => return,
            };
            self.assert_predecessors_durable();
        }
    }

    fn assert_predecessors_durable(&self) {
        for i in 1..self.files.len() {
            assert_eq!(self.files[i - 1].1.len(), self.durable[i - 1]);
        }
    }

    fn receive(&mut self, worker: &mut FlushWorker<TestWal>) -> Step<TestWal> {
        match self.queue.pop_front() {
            Some(request) => worker.received(request, 0),
            None => worker.closed(),
        }
    }
}

fn run(reqs: Vec<WorkerRequest<TestWal>>) -> Surroundings {
    let mut surroundings = Surroundings::new(reqs);
    surroundings.run(&mut worker(10));
    surroundings
}

fn run_failing_at(reqs: Vec<WorkerRequest<TestWal>>, fail_at: usize) -> Surroundings {
    let mut surroundings = Surroundings::new(reqs);
    surroundings.fail_at = fail_at;
    surroundings.run(&mut worker(10));
    surroundings
}

#[test]
fn test_sync_data_files_empty_file_list() {
    let mut worker = worker(0);
    worker.files = Vec::new();

    assert!(worker.sync_data_files(10).is_none());

    assert!(worker.files.is_empty());
}

#[test]
fn test_sync_data_files_drops_all_but_the_last() {
    let mut worker = worker(0);
    worker.files.push(entry(10, "second"));
    worker.files.push(entry(20, "third"));

    assert_eq!("first", *worker.sync_data_files(30).unwrap());
    assert_eq!("second", *worker.sync_data_files(30).unwrap());
    assert_eq!(1, worker.files.len());
    assert_eq!("third", *worker.sync_data_files(30).unwrap());
    assert_eq!(1, worker.files.len());
    assert_eq!(30, worker.sync_offset);
}

#[test]
fn test_collect_write_batch_stops_at_deadline() {
    let worker = worker(0);
    let mut batch = WriteBatch::new(8);
    assert!(batch.push_seq_request(write_request(1)));

    let now = 1_000;
    let deadline = now + worker.flush_batch_wait;
    assert_eq!(None, worker.collect_write_batch(&batch, deadline, now));

    assert_eq!(1, batch.writes.len());
    assert_eq!(1, batch.max_seq);
    assert!(batch.last_non_flush.is_none());
}

#[test]
fn test_collect_write_batch_stops_at_non_write_request() {
    let second = 1_000_000_000;
    let worker = worker(second);
    let mut batch = WriteBatch::new(8);
    assert!(batch.push_seq_request(write_request(1)));
    assert_eq!(Some(second), worker.collect_write_batch(&batch, second, 0));

    assert!(!batch.push_seq_request(SeqRequest {
        seq: 2,
        queued_at: 0,
        req: WorkerRequest::RemoveChunks {
            chunk_paths: vec!["obsolete".to_string()],
        },
    }));
    assert_eq!(None, worker.collect_write_batch(&batch, second, 0));

    assert_eq!(1, batch.writes.len());
    assert_eq!(1, batch.max_seq);
    let last = batch.last_non_flush.unwrap();
    assert_eq!(2, last.seq);
    assert!(matches!(
        last.req,
        WorkerRequest::RemoveChunks { chunk_paths }
            if chunk_paths == vec!["obsolete".to_string()]
    ));
}

#[test]
fn test_collect_write_batch_stops_when_full() {
    let worker = worker(10);
    let mut batch = WriteBatch::new(2);
    batch.push_seq_request(write_request(1));
    assert_eq!(Some(7), worker.collect_write_batch(&batch, 10, 3));
    batch.push_seq_request(write_request(2));
    assert_eq!(None, worker.collect_write_batch(&batch, 10, 3));
}

#[test]
fn test_batch_keeps_the_highest_sequence_number() {
    let mut batch = WriteBatch::new(8);
    batch.push_seq_request(write_request(3));
    batch.push_seq_request(write_request(2));
    assert_eq!(3, batch.max_seq);
    assert_eq!(2, batch.writes.len());
}

#[test]
fn test_writes_are_batched_and_acknowledged_in_order() {
    let mut done = run(vec![
        write(b"ab", false, Some(1)),
        write(b"", false, None),
        write(b"cde", false, Some(2)),
    ]);

    assert_eq!("abcde", done.content("first"));
    assert_eq!(
        vec![
            "release 2",
            "release 0",
            "release 3",
            "record 3",
            "notify 1 ok",
            "notify 2 ok",
            "complete 3",
            "stopped",
        ],
        done.log
    );
}

#[test]
fn test_one_sync_makes_the_whole_batch_durable() {
    let done = run(vec![
        write(b"ab", false, Some(1)),
        write(b"c", true, Some(2)),
    ]);

    assert_eq!(
        vec![
            "release 2",
            "release 1",
            "sync first",
            "persisted 0 0 None",
            "record 2",
            "notify 1 ok",
            "notify 2 ok",
            "complete 2",
            "stopped",
        ],
        done.log
    );
}

#[test]
fn test_failed_sync_is_told_to_the_batch_and_the_worker_goes_on() {
    let mut done = run_failing_at(
        vec![
            write(b"ab", true, Some(1)),
            WorkerRequest::GetFlushStat { tx: "stat" },
            write(b"c", false, Some(2)),
        ],
        1,
    );

    assert_eq!("abc", done.content("first"));
    assert_eq!(
        vec![
            "release 2",
            "sync first",
            "record 1",
            "notify 1 StorageFull no space",
            "stat [FlushStat { starting_offset: 0, sync_id: 0, ino: 0 }]",
            "complete 2",
            "release 1",
            "record 1",
            "notify 2 ok",
            "complete 3",
            "stopped",
        ],
        done.log
    );
}

#[test]
fn test_short_and_interrupted_writes_are_resumed() {
    let mut surroundings = Surroundings::new(vec![
        write(b"abc", false, Some(1)),
        write(b"", false, None),
        write(b"defg", false, None),
    ]);
    surroundings.writes.push_back(Ok(1));
    surroundings
        .writes
        .push_back(Err(Error::new(io::ErrorKind::Interrupted, "signal")));
    surroundings.writes.push_back(Ok(2));
    surroundings.writes.push_back(Ok(3));
    surroundings.run(&mut worker(10));

    assert_eq!("abcdefg", surroundings.content("first"));
    assert!(surroundings.log.contains(&"notify 1 ok".to_string()));
}

#[test]
fn test_write_that_takes_nothing_stops_the_worker() {
    let slot: Slot = Arc::new(Mutex::new(FileSlot::pending()));
    let late: Slot = Arc::new(Mutex::new(FileSlot::pending()));
    let mut surroundings = Surroundings::new(vec![
        write(b"abc", true, Some(1)),
        roll(3, "next", b"L", &slot),
        write(b"d", false, Some(2)),
        roll(4, "later", b"L", &late),
    ]);
    surroundings.writes.push_back(Ok(2));
    surroundings.writes.push_back(Ok(0));
    surroundings.run(&mut worker(10));

    assert_eq!(
        vec![
            "fail slot failed to write whole buffer",
            "stopped WriteZero failed to write whole buffer",
            "fail slot failed to write whole buffer",
        ],
        surroundings.log
    );
    for slot in [slot, late] {
        let err = slot.lock().unwrap().wait().unwrap().unwrap_err();
        assert_eq!(io::ErrorKind::WriteZero, err.kind());
    }
}

#[test]
fn test_write_error_stops_the_worker() {
    let mut surroundings = Surroundings::new(vec![write(b"abc", true, Some(1))]);
    surroundings
        .writes
        .push_back(Err(Error::new(io::ErrorKind::StorageFull, "no space")));
    surroundings.run(&mut worker(10));

    assert_eq!(vec!["stopped StorageFull no space"], surroundings.log);
}

#[test]
fn test_roll_makes_the_predecessor_durable_first() {
    let slot: Slot = Arc::new(Mutex::new(FileSlot::pending()));
    let mut done = run(vec![
        write(b"ab", false, Some(1)),
        roll(2, "next", b"LL", &slot),
        write(b"c", true, Some(2)),
    ]);

    assert_eq!("ab", done.content("first"));
    assert_eq!("LLc", done.content("second"));
    assert_eq!("second", *slot.lock().unwrap().get().unwrap());
    assert_eq!(
        vec![
            "release 2",
            "record 1",
            "notify 1 ok",
            "sync first",
            "persisted 0 2 None",
            "create next",
            "sync dir",
            "write leading second",
            "publish second",
            "complete 2",
            "release 1",
            "sync first",
            "sync second",
            "persisted 2 0 Some(\"state\")",
            "record 1",
            "notify 2 ok",
            "complete 3",
            "stopped",
        ],
        done.log
    );
}

#[test]
fn test_roll_fails_at_any_operation() {
    // Sync, create, directory sync, leading write.
    for fail_at in 1..=4 {
        let slot: Slot = Arc::new(Mutex::new(FileSlot::pending()));
        let done = run_failing_at(vec![roll(2, "next", b"L", &slot)], fail_at);

        let end = &done.log[done.log.len() - 2..];
        assert_eq!(["fail slot no space", "stopped StorageFull no space"], end);
        assert_eq!(fail_at >= 2, done.log.contains(&"create next".to_string()));
        assert_eq!(fail_at > 2, done.files.len() == 2);

        let err = slot.lock().unwrap().wait().unwrap().unwrap_err();
        assert_eq!(io::ErrorKind::StorageFull, err.kind());
        assert_eq!("chunk file was never created: no space", err.to_string());
    }
}

#[test]
fn test_removal_follows_earlier_writes_and_stops_at_an_error() {
    let remove = || WorkerRequest::RemoveChunks {
        chunk_paths: vec!["a".to_string(), "b".to_string()],
    };

    let done = run(vec![write(b"x", false, Some(1)), remove()]);
    assert_eq!(
        vec![
            "release 1",
            "record 1",
            "notify 1 ok",
            "remove a",
            "remove b",
            "complete 2",
            "stopped",
        ],
        done.log
    );

    let done = run_failing_at(vec![remove(), write(b"x", false, Some(1))], 1);
    assert_eq!(vec!["remove a", "stopped StorageFull no space"], done.log);

    let done = run(vec![WorkerRequest::RemoveChunks {
        chunk_paths: vec![],
    }]);
    assert_eq!(vec!["complete 1", "stopped"], done.log);
}

#[test]
fn test_batch_takes_no_more_than_its_size() {
    let done = run((0..10).map(|_| write(b"x", false, None)).collect());

    let records = done
        .log
        .iter()
        .filter(|line| line.starts_with("record"))
        .cloned()
        .collect::<Vec<_>>();
    assert_eq!(vec!["record 8", "record 2"], records);
    assert!(done.log.contains(&"complete 8".to_string()));
    assert!(done.log.contains(&"complete 10".to_string()));
}

#[test]
fn test_flush_stats_report_the_synced_offset() {
    let done = run(vec![
        WorkerRequest::Write(WriteRequest {
            upto_offset: 7,
            data: vec![1],
            sync: true,
            callback: None,
        }),
        WorkerRequest::GetFlushStat { tx: "stat" },
    ]);

    assert!(done.log.contains(
        &"stat [FlushStat { starting_offset: 0, sync_id: 7, ino: 0 }]".to_string()
    ));
}

fn queued(data: &[u8]) -> QueuedWrite<TestWal> {
    QueuedWrite {
        queued_at: 0,
        write: WriteRequest {
            upto_offset: 0,
            data: data.to_vec(),
            sync: false,
            callback: None,
        },
    }
}

#[test]
fn test_cursor_offers_what_remains() {
    let writes = vec![queued(b""), queued(b"abc"), queued(b""), queued(b"de")];
    let mut cursor = WriteCursor::start(&writes);

    assert_eq!(vec![&b"abc"[..], &b"de"[..]], cursor.slices(&writes));
    cursor.advance(&writes, 2);
    assert_eq!(vec![&b"c"[..], &b"de"[..]], cursor.slices(&writes));
    cursor.advance(&writes, 1);
    assert_eq!(vec![&b"de"[..]], cursor.slices(&writes));
    assert!(!cursor.is_done(&writes));
    cursor.advance(&writes, 100);
    assert!(cursor.is_done(&writes));
}

#[test]
fn test_cursor_of_empty_data_is_done() {
    let writes = vec![queued(b""), queued(b"")];
    assert!(WriteCursor::start(&writes).is_done(&writes));
    let none: Vec<QueuedWrite<TestWal>> = Vec::new();
    assert!(WriteCursor::start(&none).is_done(&none));
}

#[test]
fn test_cursor_offers_one_group_at_a_time() {
    let writes = (0..MAX_VECTORED_WRITE_SLICES + 2)
        .map(|_| queued(b"xy"))
        .collect::<Vec<_>>();
    let mut cursor = WriteCursor::start(&writes);

    assert_eq!(MAX_VECTORED_WRITE_SLICES, cursor.slices(&writes).len());
    cursor.advance(&writes, 3);
    assert_eq!(MAX_VECTORED_WRITE_SLICES - 1, cursor.slices(&writes).len());
    assert_eq!(b"y", cursor.slices(&writes)[0]);
    cursor.advance(&writes, 2 * MAX_VECTORED_WRITE_SLICES - 3);
    assert_eq!(MAX_VECTORED_WRITE_SLICES, cursor.index);
    assert_eq!(2, cursor.slices(&writes).len());
    cursor.advance(&writes, 4);
    assert!(cursor.is_done(&writes));
}

#[test]
fn test_batch_metrics() {
    let mut first = queued(b"abc");
    first.queued_at = 1_000_000;
    first.write.callback = Some(1);
    let mut second = queued(b"de");
    second.queued_at = 4_000_000;
    let timing = BatchTiming {
        collect_started: 3_000_000,
        group_wait: 2_000_000,
        batch_started: 5_000_000,
        write_time: 700_000,
        sync_started: 5_700_000,
        sync_time: Some(90_000),
    };

    assert_eq!(
        BatchMetrics {
            size: 2,
            bytes: 5,
            callbacks: 1,
            group_wait_us: 2_000,
            queued_wait_us: 5_000,
            queued_wait_max_us: 4_000,
            write_us: 700,
            sync_us: Some(90),
            batch_us: 1_000,
        },
        BatchMetrics::measure(&vec![first, second], timing, 6_000_000)
    );
}

#[test]
fn test_timing_of_a_batch() {
    let mut worker = worker(50_000);
    let request = |seq, queued_at, sync| SeqRequest {
        seq,
        queued_at,
        req: write(b"ab", sync, None),
    };

    let step = worker.received(request(1, 0, false), 10_000);
    assert!(matches!(
        step.action,
        Action::ReceiveTimeout { remaining: 50_000 }
    ));
    let step = worker.received_more(request(2, 15_000, true), 20_000);
    assert!(matches!(
        step.action,
        Action::ReceiveTimeout { remaining: 40_000 }
    ));
    let step = worker.received_none(60_000);
    assert!(matches!(step.action, Action::Write { .. }));
    let step = worker.wrote(Ok(4), 67_000);
    assert!(matches!(step.action, Action::Sync { .. }));
    let step = worker.synced(Ok(()), 90_000);

    let metrics = step
        .effects
        .iter()
        .find_map(|effect| match effect {
            Effect::RecordBatch { metrics } => Some(*metrics),
            _ => None,
        })
        .unwrap();
    assert_eq!(
        BatchMetrics {
            size: 2,
            bytes: 4,
            callbacks: 0,
            group_wait_us: 50,
            queued_wait_us: 105,
            queued_wait_max_us: 60,
            write_us: 7,
            sync_us: Some(23),
            batch_us: 30,
        },
        metrics
    );
}

#[test]
fn test_predecessor_is_durable_wherever_an_operation_fails() {
    for fail_at in 1..=8 {
        let slot: Slot = Arc::new(Mutex::new(FileSlot::pending()));
        let mut done = run_failing_at(
            vec![
                write(b"ab", true, Some(1)),
                write(b"cd", false, Some(2)),
                roll(4, "next", b"LL", &slot),
                write(b"ef", true, Some(3)),
                write(b"gh", false, Some(4)),
            ],
            fail_at,
        );

        // Each file holds the beginning of what was asked, in order.
        assert!("abcd".starts_with(&done.content("first")));
        if done.files.len() == 2 {
            assert_eq!("abcd", done.content("first"));
            assert!("LLefgh".starts_with(&done.content("second")));
        }
        // The slot is settled in any case.
        assert!(slot.lock().unwrap().wait().is_some());
    }
}

#[test]
fn test_acknowledged_sync_means_durable() {
    let done = run(vec![write(b"ab", false, Some(1)), write(b"cd", true, Some(2))]);

    assert!(done.log.contains(&"notify 1 ok".to_string()));
    assert!(done.log.contains(&"notify 2 ok".to_string()));
    assert_eq!(vec![4], done.durable);
}

#[test]
fn test_every_reserved_byte_is_released_once() {
    let sizes = [3usize, 0, 5, 1, 7, 2, 2, 9, 4, 6];
    let done = run(sizes.iter().map(|n| write(&vec![b'x'; *n], *n == 5, None)).collect());

    let released = done
        .log
        .iter()
        .filter_map(|line| line.strip_prefix("release "))
        .map(|bytes| bytes.parse::<usize>().unwrap())
        .collect::<Vec<_>>();
    assert_eq!(sizes.to_vec(), released);
}

#[test]
fn test_completed_numbers_increase() {
    let slot: Slot = Arc::new(Mutex::new(FileSlot::pending()));
    let done = run(vec![
        WorkerRequest::GetFlushStat { tx: "stat" },
        write(b"a", false, None),
        WorkerRequest::GetFlushStat { tx: "stat" },
        roll(1, "next", b"L", &slot),
        write(b"b", true, None),
        WorkerRequest::RemoveChunks {
            chunk_paths: vec!["first".to_string()],
        },
    ]);

    let completed = done
        .log
        .iter()
        .filter_map(|line| line.strip_prefix("complete "))
        .map(|seq| seq.parse::<u64>().unwrap())
        .collect::<Vec<_>>();
    assert_eq!(vec![1, 3, 4, 6], completed);
}
