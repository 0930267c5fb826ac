//! Configuration of the log.

use crate::chunk::chunk_id::ChunkId;
use crate::chunk::file_name::PADDED_LEN;
use crate::errors::Error;
use crate::errors::InvalidChunkFileName;
use crate::num::format_pad_u64;
use crate::num::format_u64;
use std::io::ErrorKind;
use std::time::Duration;
use vstd::prelude::*;
use vstd::string::StringExecFns;
use vstd::string::StringSliceAdditionalSpecFns;

verus! {

/// Buffer size for the sequential read that replays one chunk.
pub const DEFAULT_READ_BUFFER_SIZE: usize = 67_108_864;

/// Number of records in a full chunk.
pub const DEFAULT_CHUNK_MAX_RECORDS: usize = 1_048_576;

/// Size of a full chunk in bytes.
pub const DEFAULT_CHUNK_MAX_SIZE: usize = 1_073_741_824;

/// Milliseconds that the flush worker waits for more write requests.
pub const DEFAULT_FLUSH_BATCH_WAIT_MILLIS: u64 = 1;

/// Number of write requests in a full flush batch.
pub const DEFAULT_FLUSH_BATCH_MAX_ITEMS: usize = 2048;

/// Bytes of queued write requests held in memory.
pub const DEFAULT_FLUSH_QUEUE_MAX_BYTES: usize = 67_108_864;

/// Largest accepted `read_buffer_size`.
///
/// The buffer only serves a sequential replay of one chunk, so a value this
/// large is already far past useful and is more likely a unit mistake.
pub const MAX_READ_BUFFER_SIZE: usize = 1_073_741_824;

/// The duration of a number of milliseconds.
pub uninterp spec fn millis_duration(millis: u64) -> Duration;

/// `Duration::from_millis` is a function of the number of milliseconds; its
/// result is named [`millis_duration`].
pub assume_specification[ Duration::from_millis ](millis: u64) -> (r: Duration)
    ensures
        r == millis_duration(millis),
;

/// What the standard library says of a string of digits that is no `u64`.
pub uninterp spec fn parse_u64_error(digits: Seq<char>) -> Seq<char>;

/// `str::parse::<u64>` on a string of decimal digits.
///
/// It succeeds on a non-empty string whose value fits, with that value. The
/// error is handed on as its text, which is a function of the string; it is
/// named [`parse_u64_error`].
#[verifier::external_body]
fn parse_u64(digits: &str) -> (r: Result<u64, String>)
    requires
        forall|i: int| 0 <= i < digits@.len() ==> '0' <= #[trigger] digits@[i] <= '9',
    ensures
        match r {
            Ok(n) => digits@.len() > 0 && n == crate::chunk::file_name::decimal_value(digits@),
            Err(text) => {
                &&& digits@.len() == 0 || crate::chunk::file_name::decimal_value(digits@)
                    > u64::MAX
                &&& text@ == parse_u64_error(digits@)
            },
        },
{
    digits.parse::<u64>().map_err(|e| e.to_string())
}

/// Configuration for chunked WAL.
///
/// This struct holds directory, chunk, recovery, and flush batching settings.
///
/// Optional parameters are `Option<T>` in this struct, and default values is
/// evaluated when a getter method is called.
#[derive(Clone, Debug)]
pub struct Config {
    /// Base directory for storing WAL files.
    pub dir: String,
    /// Size of the read buffer in bytes.
    pub read_buffer_size: Option<usize>,
    /// Maximum number of records in a chunk.
    pub chunk_max_records: Option<usize>,
    /// Maximum size of a chunk in bytes.
    pub chunk_max_size: Option<usize>,
    /// Whether to truncate the last half sync-ed record.
    ///
    /// If truncate, the chunk is considered successfully opened.
    /// Otherwise, an error will be returned.
    pub truncate_incomplete_record: Option<bool>,
    /// Maximum time the flush worker waits for more write requests before
    /// starting a sync batch.
    ///
    /// Defaults to 1 millisecond.
    pub flush_batch_wait: Option<Duration>,
    /// Maximum number of write requests to include in one flush batch.
    ///
    /// Defaults to 2048.
    pub flush_batch_max_items: Option<usize>,
    /// Maximum number of bytes of queued write requests held in memory.
    ///
    /// A request that would exceed this limit blocks its sender until the
    /// flush worker has written earlier requests. Defaults to 64MB. One
    /// request bigger than the whole limit is still accepted, once nothing
    /// else is queued.
    pub flush_queue_max_bytes: Option<usize>,
}

impl Default for Config {
    fn default() -> (r: Self)
        ensures
            r.dir@ == Seq::<char>::empty(),
            r.all_default(),
    {
        Config {
            dir: String::new(),
            read_buffer_size: None,
            chunk_max_records: None,
            chunk_max_size: None,
            truncate_incomplete_record: None,
            flush_batch_wait: None,
            flush_batch_max_items: None,
            flush_queue_max_bytes: None,
        }
    }
}

impl Config {
    /// Every optional parameter is left at its default.
    pub open spec fn all_default(self) -> bool {
        &&& self.read_buffer_size is None
        &&& self.chunk_max_records is None
        &&& self.chunk_max_size is None
        &&& self.truncate_incomplete_record is None
        &&& self.flush_batch_wait is None
        &&& self.flush_batch_max_items is None
        &&& self.flush_queue_max_bytes is None
    }

    /// The read buffer size in effect.
    pub open spec fn effective_read_buffer_size(self) -> usize {
        match self.read_buffer_size {
            Some(n) => n,
            None => DEFAULT_READ_BUFFER_SIZE,
        }
    }

    /// The number of records per chunk in effect.
    pub open spec fn effective_chunk_max_records(self) -> usize {
        match self.chunk_max_records {
            Some(n) => n,
            None => DEFAULT_CHUNK_MAX_RECORDS,
        }
    }

    /// The chunk size in effect.
    pub open spec fn effective_chunk_max_size(self) -> usize {
        match self.chunk_max_size {
            Some(n) => n,
            None => DEFAULT_CHUNK_MAX_SIZE,
        }
    }

    /// Whether incomplete records are truncated.
    pub open spec fn effective_truncate_incomplete_record(self) -> bool {
        match self.truncate_incomplete_record {
            Some(truncate) => truncate,
            None => true,
        }
    }

    /// The wait before a flush batch is written that is in effect.
    pub open spec fn effective_flush_batch_wait(self) -> Duration {
        match self.flush_batch_wait {
            Some(wait) => wait,
            None => millis_duration(DEFAULT_FLUSH_BATCH_WAIT_MILLIS),
        }
    }

    /// The number of write requests in a flush batch in effect.
    pub open spec fn effective_flush_batch_max_items(self) -> usize {
        match self.flush_batch_max_items {
            Some(n) => n,
            None => DEFAULT_FLUSH_BATCH_MAX_ITEMS,
        }
    }

    /// The bytes of queued write requests in effect.
    pub open spec fn effective_flush_queue_max_bytes(self) -> usize {
        match self.flush_queue_max_bytes {
            Some(n) => n,
            None => DEFAULT_FLUSH_QUEUE_MAX_BYTES,
        }
    }

    /// The path of a chunk's file.
    pub open spec fn chunk_path_text(self, chunk_id: ChunkId) -> Seq<char> {
        self.dir@ + "/"@ + crate::chunk::file_name::file_name(chunk_id)
    }

    /// What is said of a parameter that is zero.
    pub open spec fn zero_text(name: Seq<char>) -> Seq<char> {
        "Config::"@ + name + " is 0"@
    }

    /// Why the settings cannot produce a working log: the first reason found,
    /// or none.
    pub open spec fn rejection(self) -> Option<Seq<char>> {
        if self.dir@.len() == 0 {
            Some("Config::dir is empty"@)
        } else if self.read_buffer_size == Some(0usize) {
            Some(Self::zero_text("read_buffer_size"@))
        } else if self.chunk_max_records == Some(0usize) {
            Some(Self::zero_text("chunk_max_records"@))
        } else if self.chunk_max_size == Some(0usize) {
            Some(Self::zero_text("chunk_max_size"@))
        } else if self.flush_batch_max_items == Some(0usize) {
            Some(Self::zero_text("flush_batch_max_items"@))
        } else if self.flush_queue_max_bytes == Some(0usize) {
            Some(Self::zero_text("flush_queue_max_bytes"@))
        } else if self.effective_read_buffer_size() > MAX_READ_BUFFER_SIZE {
            Some(
                "Config::read_buffer_size "@ + crate::num::decimal(
                    self.effective_read_buffer_size() as nat,
                ) + " exceeds the "@ + crate::num::decimal(MAX_READ_BUFFER_SIZE as nat)
                    + " byte limit"@,
            )
        } else {
            None
        }
    }

    /// Creates a new Config with the specified directory and defaults.
    pub fn new(dir: &str) -> (r: Self)
        ensures
            r.dir@ == dir@,
            r.all_default(),
    {
        Self::new_full(dir, None, None, None)
    }

    /// Creates a new Config with all configurable parameters
    pub fn new_full(
        dir: &str,
        read_buffer_size: Option<usize>,
        chunk_max_records: Option<usize>,
        chunk_max_size: Option<usize>,
    ) -> (r: Self)
        ensures
            r.dir@ == dir@,
            r.read_buffer_size == read_buffer_size,
            r.chunk_max_records == chunk_max_records,
            r.chunk_max_size == chunk_max_size,
            r.truncate_incomplete_record is None,
            r.flush_batch_wait is None,
            r.flush_batch_max_items is None,
            r.flush_queue_max_bytes is None,
    {
        Config {
            dir: String::from_str(dir),
            read_buffer_size,
            chunk_max_records,
            chunk_max_size,
            truncate_incomplete_record: None,
            flush_batch_wait: None,
            flush_batch_max_items: None,
            flush_queue_max_bytes: None,
        }
    }

    /// Returns the size of read buffer in bytes (defaults to 64MB)
    pub fn read_buffer_size(&self) -> (r: usize)
        ensures
            r == self.effective_read_buffer_size(),
    {
        self.read_buffer_size.unwrap_or(DEFAULT_READ_BUFFER_SIZE)
    }

    /// Returns the maximum number of records per chunk (defaults to 1M records)
    pub fn chunk_max_records(&self) -> (r: usize)
        ensures
            r == self.chunk_max_records.unwrap_or(DEFAULT_CHUNK_MAX_RECORDS),
            r == self.effective_chunk_max_records(),
    {
        self.chunk_max_records.unwrap_or(DEFAULT_CHUNK_MAX_RECORDS)
    }

    /// Returns the maximum size of a chunk in bytes (defaults to 1GB)
    pub fn chunk_max_size(&self) -> (r: usize)
        ensures
            r == self.chunk_max_size.unwrap_or(DEFAULT_CHUNK_MAX_SIZE),
            r == self.effective_chunk_max_size(),
    {
        self.chunk_max_size.unwrap_or(DEFAULT_CHUNK_MAX_SIZE)
    }

    /// Returns whether to truncate incomplete records (defaults to true)
    pub fn truncate_incomplete_record(&self) -> (r: bool)
        ensures
            r == self.truncate_incomplete_record.unwrap_or(true),
            r == self.effective_truncate_incomplete_record(),
    {
        self.truncate_incomplete_record.unwrap_or(true)
    }

    /// Returns the bounded wait before syncing a flush batch.
    pub fn flush_batch_wait(&self) -> (r: Duration)
        ensures
            r == (match self.flush_batch_wait {
                Some(wait) => wait,
                None => millis_duration(DEFAULT_FLUSH_BATCH_WAIT_MILLIS),
            }),
            r == self.effective_flush_batch_wait(),
    {
        match self.flush_batch_wait {
            Some(wait) => wait,
            None => Duration::from_millis(DEFAULT_FLUSH_BATCH_WAIT_MILLIS),
        }
    }

    /// Returns the maximum number of write requests in one flush batch.
    pub fn flush_batch_max_items(&self) -> (r: usize)
        ensures
            r == self.flush_batch_max_items.unwrap_or(DEFAULT_FLUSH_BATCH_MAX_ITEMS),
            r == self.effective_flush_batch_max_items(),
    {
        self.flush_batch_max_items.unwrap_or(DEFAULT_FLUSH_BATCH_MAX_ITEMS)
    }

    /// Returns the maximum bytes of queued write requests held in memory.
    pub fn flush_queue_max_bytes(&self) -> (r: usize)
        ensures
            r == self.flush_queue_max_bytes.unwrap_or(DEFAULT_FLUSH_QUEUE_MAX_BYTES),
            r == self.effective_flush_queue_max_bytes(),
    {
        self.flush_queue_max_bytes.unwrap_or(DEFAULT_FLUSH_QUEUE_MAX_BYTES)
    }

    /// Rejects a parameter that is zero.
    fn reject_zero(name: &str, value: Option<usize>) -> (r: Result<(), Error>)
        ensures
            match r {
                Ok(_) => value != Some(0usize),
                Err(e) => {
                    &&& value == Some(0usize)
                    &&& e.kind == ErrorKind::InvalidInput
                    &&& e.message@ == Self::zero_text(name@)
                },
            },
    {
        match value {
            Some(0) => {
                let mut message = String::from_str("Config::");
                message.append(name);
                message.append(" is 0");
                Err(Error { kind: ErrorKind::InvalidInput, message })
            },
            _ => Ok(()),
        }
    }

    /// Rejects settings that cannot produce a working WAL.
    ///
    /// Opening or dumping a WAL validates first, so a bad value fails there
    /// instead of turning into a silent empty read, a chunk that is full the
    /// moment it is created, or a flush batch that holds nothing.
    pub fn validate(&self) -> (r: Result<(), Error>)
        ensures
            match r {
                Ok(_) => self.rejection() is None,
                Err(e) => e.kind == ErrorKind::InvalidInput && self.rejection() == Some(e.message@),
            },
    {
        if self.dir.as_str().is_empty() {
            return Err(Error::new(ErrorKind::InvalidInput, "Config::dir is empty"));
        }
        Self::reject_zero("read_buffer_size", self.read_buffer_size)?;
        Self::reject_zero("chunk_max_records", self.chunk_max_records)?;
        Self::reject_zero("chunk_max_size", self.chunk_max_size)?;
        Self::reject_zero("flush_batch_max_items", self.flush_batch_max_items)?;
        Self::reject_zero("flush_queue_max_bytes", self.flush_queue_max_bytes)?;

        let read_buffer_size = self.read_buffer_size();
        if read_buffer_size > MAX_READ_BUFFER_SIZE {
            let mut message = String::from_str("Config::read_buffer_size ");
            message.append(format_u64(read_buffer_size as u64).as_str());
            message.append(" exceeds the ");
            message.append(format_u64(MAX_READ_BUFFER_SIZE as u64).as_str());
            message.append(" byte limit");
            return Err(Error { kind: ErrorKind::InvalidInput, message });
        }
        Ok(())
    }

    /// Returns the full path for a given chunk ID
    pub fn chunk_path(&self, chunk_id: ChunkId) -> (r: String)
        ensures
            r@ == self.dir@ + "/"@ + crate::chunk::file_name::file_name(chunk_id),
            r@ == self.chunk_path_text(chunk_id),
    {
        let mut path = self.dir.clone();
        path.append("/");
        path.append(Self::chunk_file_name(chunk_id).as_str());
        path
    }

    /// Generates the file name for a given chunk ID
    ///
    /// The file name format is "r-{padded_chunk_id}.wal"
    pub fn chunk_file_name(chunk_id: ChunkId) -> (r: String)
        ensures
            r@ == crate::chunk::file_name::file_name(chunk_id),
    {
        let mut name = String::from_str("r-");
        name.append(format_pad_u64(*chunk_id).as_str());
        name.append(".wal");
        name
    }

    /// Returns the digits among `bytes[from..to]`, in order.
    fn keep_digits(bytes: &[u8], from: usize, to: usize) -> (r: String)
        requires
            from <= to <= bytes@.len(),
        ensures
            r@ == crate::chunk::file_name::digits(bytes@.subrange(from as int, to as int)),
            forall|i: int| 0 <= i < r@.len() ==> '0' <= #[trigger] r@[i] <= '9',
    {
        let mut r = String::new();
        let mut i: usize = from;
        proof {
            reveal(Seq::filter);
        }
        while i < to
            invariant
                from <= i <= to <= bytes@.len(),
                r@ == crate::chunk::file_name::digits(bytes@.subrange(from as int, i as int)),
                forall|j: int| 0 <= j < r@.len() ==> '0' <= #[trigger] r@[j] <= '9',
            decreases to - i,
        {
            let b = bytes[i];
            proof {
                reveal(Seq::filter);
                let next = bytes@.subrange(from as int, i + 1);
                assert(next.drop_last() =~= bytes@.subrange(from as int, i as int));
            }
            if 48 <= b && b <= 57 {
                r.push(b as char);
            }
            i = i + 1;
        }
        r
    }

    /// Parses a chunk file name and returns the chunk ID
    ///
    /// # Arguments
    /// * `file_name` - Name of the chunk file (format:
    ///   "r-{padded_chunk_id}.wal")
    ///
    /// # Returns
    /// * `Ok(u64)` - The chunk ID if parsing succeeds
    /// * `Err(InvalidChunkFileName)` - If the file name format is invalid
    pub fn parse_chunk_file_name(file_name: &str) -> (r: Result<u64, InvalidChunkFileName>)
        ensures
            r is Ok <==> exists|n: u64|
                file_name@ == #[trigger] crate::chunk::file_name::file_name(ChunkId(n)),
            match r {
                Ok(n) => {
                    &&& file_name@ == crate::chunk::file_name::file_name(ChunkId(n))
                    &&& crate::chunk::file_name::parsed(file_name@) == Some(n)
                },
                Err(e) => {
                    let name = file_name.spec_bytes();
                    let middle = crate::chunk::file_name::middle(name);
                    &&& e.bad_file_name@ == file_name@
                    &&& e.reason@ == if !crate::chunk::file_name::has_suffix(name) {
                        "has no '.wal' suffix"@
                    } else if !crate::chunk::file_name::has_prefix(name) {
                        "has no 'r-' prefix"@
                    } else if middle.len() != PADDED_LEN {
                        "does not have 26 digit after 'r-' prefix"@
                    } else if crate::chunk::file_name::scanned(name) is Some {
                        "is not the padded form of a chunk id"@
                    } else {
                        "cannot parse as u64: "@ + parse_u64_error(
                            crate::chunk::file_name::digits(middle),
                        )
                    }
                },
            },
    {
        let bytes = file_name.as_bytes();
        let len = bytes.len();
        let ghost name = file_name.spec_bytes();
        proof {
            if exists|n: u64|
                file_name@ == #[trigger] crate::chunk::file_name::file_name(ChunkId(n)) {
                let n = choose|n: u64|
                    file_name@ == #[trigger] crate::chunk::file_name::file_name(ChunkId(n));
                crate::chunk::file_name::lemma_scanned(ChunkId(n));
            }
        }

        // 1. Check the ".wal" suffix or return an error if it's not there
        let suffix = len >= 4 && bytes[len - 4] == 46 && bytes[len - 3] == 119 && bytes[len - 2]
            == 97 && bytes[len - 1] == 108;
        assert(suffix == crate::chunk::file_name::has_suffix(name)) by {
            if len >= 4 {
                let end = name.skip(len - 4);
                assert(end[0] == name[len - 4] && end[1] == name[len - 3] && end[2] == name[len - 2]
                    && end[3] == name[len - 1]);
                if suffix {
                    assert(end =~= seq![46u8, 119u8, 97u8, 108u8]);
                }
            }
        }
        if !suffix {
            return Err(InvalidChunkFileName::new(file_name, "has no '.wal' suffix"));
        }
        // 2. Check the "r-" prefix or return an error if it's not there

        let prefix = len >= 6 && bytes[0] == 114 && bytes[1] == 45;
        assert(prefix == crate::chunk::file_name::has_prefix(name)) by {
            if len >= 6 {
                let start = name.take(2);
                assert(start[0] == name[0] && start[1] == name[1]);
                if prefix {
                    assert(start =~= seq![114u8, 45u8]);
                }
            }
        }
        if !prefix {
            return Err(InvalidChunkFileName::new(file_name, "has no 'r-' prefix"));
        }
        if len - 6 != PADDED_LEN {
            return Err(
                InvalidChunkFileName::new(file_name, "does not have 26 digit after 'r-' prefix"),
            );
        }
        let digits = Self::keep_digits(bytes, 2, len - 4);

        // 3. Parse the remaining string as an u64
        match parse_u64(digits.as_str()) {
            Ok(n) => {
                // 4. Accept the padded form only, so that no other name
                // denotes the chunk
                if String::from_str(file_name) != Self::chunk_file_name(ChunkId(n)) {
                    return Err(
                        InvalidChunkFileName::new(
                            file_name,
                            "is not the padded form of a chunk id",
                        ),
                    );
                }
                proof {
                    crate::chunk::file_name::law_file_name_round_trip(ChunkId(n));
                }
                Ok(n)
            },
            Err(text) => {
                let mut reason = String::from_str("cannot parse as u64: ");
                reason.append(text.as_str());
                Err(InvalidChunkFileName::new(file_name, reason.as_str()))
            },
        }
    }
}

/// Settings that pass validation are usable: there is a directory, no size or
/// count is zero, and the read buffer is of a sensible size.
pub proof fn law_valid_settings_are_usable(config: Config)
    requires
        config.rejection() is None,
    ensures
        config.dir@.len() > 0,
        0 < config.effective_read_buffer_size() <= MAX_READ_BUFFER_SIZE,
        config.chunk_max_records.unwrap_or(DEFAULT_CHUNK_MAX_RECORDS) > 0,
        config.chunk_max_size.unwrap_or(DEFAULT_CHUNK_MAX_SIZE) > 0,
        config.flush_batch_max_items.unwrap_or(DEFAULT_FLUSH_BATCH_MAX_ITEMS) > 0,
        config.flush_queue_max_bytes.unwrap_or(DEFAULT_FLUSH_QUEUE_MAX_BYTES) > 0,
{
}

/// Settings left at their defaults are accepted for every directory.
pub proof fn law_defaults_are_valid(config: Config)
    requires
        config.dir@.len() > 0,
        config.all_default(),
    ensures
        config.rejection() is None,
{
}

/// Settings are accepted exactly when there is a directory, no size or count
/// is set to zero, and the read buffer is not set beyond its limit.
pub proof fn law_usable_settings_are_accepted(config: Config)
    ensures
        config.rejection() is None <==> {
            &&& config.dir@.len() > 0
            &&& config.read_buffer_size matches Some(n) ==> 0 < n <= MAX_READ_BUFFER_SIZE
            &&& config.chunk_max_records matches Some(n) ==> n > 0
            &&& config.chunk_max_size matches Some(n) ==> n > 0
            &&& config.flush_batch_max_items matches Some(n) ==> n > 0
            &&& config.flush_queue_max_bytes matches Some(n) ==> n > 0
        },
        config.read_buffer_size matches Some(n) ==> config.effective_read_buffer_size() == n,
{
}

/// If a single setting is wrong, the reason names it.
pub proof fn law_reason_names_the_setting(config: Config)
    ensures
        config.dir@.len() == 0 ==> config.rejection() == Some("Config::dir is empty"@),
        config.dir@.len() > 0 && config.rejection() is Some ==> {
            let reason = config.rejection()->0;
            ||| config.read_buffer_size == Some(0usize) && reason == "Config::"@
                + "read_buffer_size"@ + " is 0"@
            ||| config.chunk_max_records == Some(0usize) && reason == "Config::"@
                + "chunk_max_records"@ + " is 0"@
            ||| config.chunk_max_size == Some(0usize) && reason == "Config::"@
                + "chunk_max_size"@ + " is 0"@
            ||| config.flush_batch_max_items == Some(0usize) && reason == "Config::"@
                + "flush_batch_max_items"@ + " is 0"@
            ||| config.flush_queue_max_bytes == Some(0usize) && reason == "Config::"@
                + "flush_queue_max_bytes"@ + " is 0"@
            ||| config.read_buffer_size matches Some(n) && n > MAX_READ_BUFFER_SIZE && reason
                == "Config::read_buffer_size "@ + crate::num::decimal(n as nat)
                + " exceeds the "@ + crate::num::decimal(MAX_READ_BUFFER_SIZE as nat)
                + " byte limit"@
        },
{
}

/// A setting that is set is the one in effect. Otherwise chunks have up to a
/// million records and a gigabyte, incomplete records are truncated, batches
/// are waited for a millisecond and have up to 2048 requests, and 64 megabytes
/// are read at once or held in the queue.
pub proof fn law_settings_in_effect(config: Config)
    ensures
        config.read_buffer_size matches Some(n) ==> config.effective_read_buffer_size() == n,
        config.chunk_max_records matches Some(n) ==> config.effective_chunk_max_records() == n,
        config.chunk_max_size matches Some(n) ==> config.effective_chunk_max_size() == n,
        config.truncate_incomplete_record matches Some(truncate)
            ==> config.effective_truncate_incomplete_record() == truncate,
        config.flush_batch_wait matches Some(wait) ==> config.effective_flush_batch_wait() == wait,
        config.flush_batch_max_items matches Some(n) ==> config.effective_flush_batch_max_items()
            == n,
        config.flush_queue_max_bytes matches Some(n) ==> config.effective_flush_queue_max_bytes()
            == n,
        config.read_buffer_size is None ==> config.effective_read_buffer_size() == 64 * 1024 * 1024,
        config.chunk_max_records is None ==> config.effective_chunk_max_records() == 1024 * 1024,
        config.chunk_max_size is None ==> config.effective_chunk_max_size() == 1024 * 1024 * 1024,
        config.truncate_incomplete_record is None ==> config.effective_truncate_incomplete_record(),
        config.flush_batch_wait is None ==> config.effective_flush_batch_wait() == millis_duration(
            1,
        ),
        config.flush_batch_max_items is None ==> config.effective_flush_batch_max_items() == 2048,
        config.flush_queue_max_bytes is None ==> config.effective_flush_queue_max_bytes() == 64
            * 1024 * 1024,
{
}

/// The path of a chunk's file leads to the file of that name in the directory,
/// so different chunks have different paths.
pub proof fn law_chunk_files_are_in_the_directory(config: Config, a: ChunkId, b: ChunkId)
    ensures
        ({
            let path = config.chunk_path_text(a);
            let len = config.dir@.len() as int;
            &&& path.take(len) == config.dir@
            &&& path[len] == '/'
            &&& path.skip(len + 1) == crate::chunk::file_name::file_name(a)
        }),
        config.chunk_path_text(a) == config.chunk_path_text(b) ==> a == b,
{
    let (path, other) = (config.chunk_path_text(a), config.chunk_path_text(b));
    let len = config.dir@.len() as int;
    reveal_strlit("/");
    assert(path.take(len) =~= config.dir@);
    assert(path.skip(len + 1) =~= crate::chunk::file_name::file_name(a));
    assert(other.skip(len + 1) =~= crate::chunk::file_name::file_name(b));
    if path == other && a != b {
        crate::chunk::file_name::law_file_names_differ(a, b);
    }
}

} // verus!
