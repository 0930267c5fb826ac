//! The log: requests to the flush worker, and the worker itself.

pub mod accounting;
pub mod batch_metrics;
pub mod closed_chunk_reader;
pub mod completion;
pub mod delivery;
pub mod durability;
pub mod file_entry;
pub mod file_persisted;
pub mod flow;
pub mod flush_client;
pub mod flush_recorder;
pub mod flush_request;
pub mod flush_worker;
pub mod latency;
pub mod onlooker;
pub mod progress;
pub mod queued_bytes;
pub mod queued_write;
pub mod service;
pub mod step_shape;
pub mod vectored_write;
pub mod waiting;
pub mod worker_event;
pub mod worker_model;
pub mod worker_state;
pub mod worker_step;
pub mod write_batch;
