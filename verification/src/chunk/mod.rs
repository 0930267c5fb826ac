//! Chunks: the files a log consists of, and their in-memory state.

pub mod chunk_id;
pub mod closed_chunk;
pub mod file_name;
pub mod file_slot;
pub mod layout;
pub mod open_chunk;
