# chunked_wal

A write-ahead log that is split into chunk files. Each chunk file is named
after the global offset at which it starts, and begins with a checkpoint.

The library in `src/` holds the rules of the log, verified with Verus. It
performs no I/O: where a rule depends on the outcome of a system call, the
outcome is an argument.

- `config`, `chunk::file_name`, `num`: settings, their validation, and the
  names of chunk files.
- `chunk::layout`, `chunk::open_chunk`, `chunk::closed_chunk`,
  `wal::closed_chunk_reader`: where records lie in a chunk, and how they are
  appended and found again.
- `chunk::file_slot`, `file_lock`: the handle of a file that is created later,
  and the lock on the directory.
- `wal::queued_bytes`, `wal::flush_client`, `wal::worker_state`: sending
  requests to the flush worker, bounding queued data, waiting for completion.
- `wal::flush_worker`, with `wal::write_batch`, `wal::vectored_write`,
  `wal::batch_metrics`: batching, writing, syncing, rolling over to a new chunk
  and removing old ones. `wal::worker_model` states its behaviour as a state
  machine; `wal::worker_step` lists what it asks its surroundings to do.
- `wal::durability`: the worker's guarantees about the files, such as that a
  chunk file is created only when its predecessors are durable, and that
  acknowledged data survives a crash.
- `wal::accounting`: as long as the worker does not fail, every reserved byte,
  callback and slot that comes in with a request is given back once. When it
  fails, slots are marked as failed, and callbacks are told nothing.
- `wal::completion`: requests are completed in the order they were sent, when
  they have been processed and not before.
- `wal::flow`, with `wal::progress`: what the sender and the worker guarantee
  together. Reserved bytes are those of data that has not been written, a
  sender that has to wait goes on in the end, and after a failure nothing is
  reserved.
- `wal::delivery`: unless the worker fails, everything that is sent is written,
  in the order it was sent.
- `wal::waiting`: whoever waits for a sequence number until it is completed
  finds every request up to it in the log; once a failure is recorded, nothing
  more is completed.
- `stat`, `wal::flush_recorder`, `wal::latency`: metrics of the worker, with
  exact latency percentiles over all batches.

`app/` runs the library on files and threads. `tests/` runs it on values and on
files in memory.
