//! Chunked write-ahead log.
//!
//! The log is a sequence of chunk files, each named after the global offset
//! at which it starts. This crate holds the log's rules: how chunks are named,
//! how records are laid out in them, how queued writes are bounded, batched,
//! written and made durable, and how a chunk is handed over to its successor.
//! None of it performs I/O: where a rule depends on the outcome of a system
//! call, the call's result is an argument.

pub mod chunk;
pub mod config;
pub mod errors;
pub mod file_lock;
pub mod num;
pub mod stat;
pub mod text;
pub mod types;
pub mod wal;

pub use chunk::chunk_id::ChunkId;
pub use config::Config;
pub use errors::Error;
pub use errors::InvalidChunkFileName;
pub use file_lock::WalLock;
pub use stat::ChunkStat;
pub use stat::FlushLatencyPercentiles;
pub use stat::FlushMetrics;
pub use types::Segment;
pub use types::WalTypes;
pub use wal::closed_chunk_reader::ClosedChunkReader;
pub use wal::file_persisted::ChunkPersisted;
pub use wal::flush_request::FlushStat;
