use std::io;
use std::time::Duration;

use chunked_wal::config::MAX_READ_BUFFER_SIZE;
use chunked_wal::ChunkId;
use chunked_wal::Config;
use chunked_wal::Error;

#[test]
fn test_config_defaults() {
    let config = Config::new("wal-dir");

    assert_eq!("wal-dir", config.dir);
    assert_eq!(64 * 1024 * 1024, config.read_buffer_size());
    assert_eq!(1024 * 1024, config.chunk_max_records());
    assert_eq!(1024 * 1024 * 1024, config.chunk_max_size());
    assert!(config.truncate_incomplete_record());
    assert_eq!(Duration::from_millis(1), config.flush_batch_wait());
    assert_eq!(2048, config.flush_batch_max_items());
    assert_eq!(64 * 1024 * 1024, config.flush_queue_max_bytes());
}

#[test]
fn test_config_overrides() {
    let mut config = Config::new_full("wal-dir", Some(1), Some(2), Some(3));
    config.truncate_incomplete_record = Some(false);
    config.flush_batch_wait = Some(Duration::from_millis(9));
    config.flush_batch_max_items = Some(4);
    config.flush_queue_max_bytes = Some(5);

    assert_eq!(1, config.read_buffer_size());
    assert_eq!(2, config.chunk_max_records());
    assert_eq!(3, config.chunk_max_size());
    assert!(!config.truncate_incomplete_record());
    assert_eq!(Duration::from_millis(9), config.flush_batch_wait());
    assert_eq!(4, config.flush_batch_max_items());
    assert_eq!(5, config.flush_queue_max_bytes());
}

#[test]
fn test_validate_accepts_defaults_and_overrides() -> Result<(), Error> {
    Config::new("wal-dir").validate()?;

    let mut config = Config::new_full("wal-dir", Some(1), Some(2), Some(3));
    config.flush_batch_max_items = Some(4);
    config.flush_queue_max_bytes = Some(5);
    config.validate()?;

    Ok(())
}

#[test]
fn test_validate_rejects_empty_dir() {
    let err = Config::new("").validate().unwrap_err();

    assert_eq!(io::ErrorKind::InvalidInput, err.kind());
    assert_eq!("Config::dir is empty", err.to_string());
}

fn assert_zero_rejected(config: &Config, name: &str) {
    let err = config.validate().unwrap_err();

    assert_eq!(io::ErrorKind::InvalidInput, err.kind());
    assert_eq!(format!("Config::{name} is 0"), err.to_string());
}

#[test]
fn test_validate_rejects_zero_sizes() {
    let mut config = Config::new("wal-dir");
    config.read_buffer_size = Some(0);
    assert_zero_rejected(&config, "read_buffer_size");

    let mut config = Config::new("wal-dir");
    config.chunk_max_records = Some(0);
    assert_zero_rejected(&config, "chunk_max_records");

    let mut config = Config::new("wal-dir");
    config.chunk_max_size = Some(0);
    assert_zero_rejected(&config, "chunk_max_size");

    let mut config = Config::new("wal-dir");
    config.flush_batch_max_items = Some(0);
    assert_zero_rejected(&config, "flush_batch_max_items");

    let mut config = Config::new("wal-dir");
    config.flush_queue_max_bytes = Some(0);
    assert_zero_rejected(&config, "flush_queue_max_bytes");
}

#[test]
fn test_validate_rejects_oversized_read_buffer() {
    let mut config = Config::new("wal-dir");
    config.read_buffer_size = Some(MAX_READ_BUFFER_SIZE + 1);

    let err = config.validate().unwrap_err();

    assert_eq!(io::ErrorKind::InvalidInput, err.kind());
    assert_eq!(
        "Config::read_buffer_size 1073741825 exceeds the 1073741824 byte limit",
        err.to_string()
    );
}

#[test]
fn test_validate_accepts_largest_read_buffer() {
    let mut config = Config::new("wal-dir");
    config.read_buffer_size = Some(MAX_READ_BUFFER_SIZE);

    assert!(config.validate().is_ok());
}

#[test]
fn test_validate_reports_the_first_reason() {
    let mut config = Config::new("");
    config.read_buffer_size = Some(0);
    assert_eq!(
        "Config::dir is empty",
        config.validate().unwrap_err().to_string()
    );

    config.dir = "wal-dir".to_string();
    config.flush_queue_max_bytes = Some(0);
    assert_zero_rejected(&config, "read_buffer_size");
}

#[test]
fn test_config_default_is_empty() {
    let config = Config::default();

    assert_eq!("", config.dir);
    assert_eq!(2048, config.flush_batch_max_items());
}

#[test]
fn test_chunk_path_and_file_name() {
    let config = Config::new("wal-dir");

    assert_eq!(
        "r-00_000_000_000_001_200_000.wal",
        Config::chunk_file_name(ChunkId(1_200_000))
    );
    assert_eq!(
        "wal-dir/r-00_000_000_000_001_200_000.wal",
        config.chunk_path(ChunkId(1_200_000))
    );
}

#[test]
fn test_parse_chunk_file_name() {
    assert_eq!(
        Config::parse_chunk_file_name("r-10_100_000_000_001_200_000.wal"),
        Ok(10_100_000_000_001_200_000)
    );

    assert!(
        Config::parse_chunk_file_name("r-10_100_000_000_001_200_000_1.wal")
            .is_err()
    );
    assert!(Config::parse_chunk_file_name("r-1000000000.wal").is_err());
    assert!(
        Config::parse_chunk_file_name("r-10_100_000_000_001_200_000.wall")
            .is_err()
    );
    assert!(
        Config::parse_chunk_file_name("rrr-10_100_000_000_001_200_000.wal")
            .is_err()
    );

    let bad_file_name = format!("r-{}.wal", "_".repeat(26));
    let err = Config::parse_chunk_file_name(&bad_file_name).unwrap_err();
    assert_eq!(bad_file_name, err.bad_file_name);
    assert!(err.reason.contains("cannot parse as u64"));
}

fn parse_reason(file_name: &str) -> String {
    let err = Config::parse_chunk_file_name(file_name).unwrap_err();
    assert_eq!(file_name, err.bad_file_name);
    err.reason
}

#[test]
fn test_parse_reports_why_a_name_is_rejected() {
    assert_eq!("has no '.wal' suffix", parse_reason(""));
    assert_eq!("has no '.wal' suffix", parse_reason("wal"));
    assert_eq!("has no 'r-' prefix", parse_reason(".wal"));
    assert_eq!("has no 'r-' prefix", parse_reason("r.wal"));
    // The prefix and the suffix may not overlap.
    assert_eq!("has no 'r-' prefix", parse_reason("-.wal"));
    assert_eq!(
        "does not have 26 digit after 'r-' prefix",
        parse_reason("r-.wal")
    );
    assert_eq!(
        "does not have 26 digit after 'r-' prefix",
        parse_reason("r-00_000_000_000_001_200_00.wal")
    );
}

#[test]
fn test_parse_error_text_is_that_of_the_standard_library() {
    let empty = "".parse::<u64>().unwrap_err();
    assert_eq!(
        format!("cannot parse as u64: {empty}"),
        parse_reason(&format!("r-{}.wal", "_".repeat(26)))
    );

    let digits = "9".repeat(26);
    let overflow = digits.parse::<u64>().unwrap_err();
    assert_eq!(
        format!("cannot parse as u64: {overflow}"),
        parse_reason(&format!("r-{digits}.wal"))
    );
}

#[test]
fn test_parse_accepts_the_padded_form_only() {
    let not_padded = "is not the padded form of a chunk id";

    assert_eq!(
        not_padded,
        parse_reason("r-10-100-000-000-001-200-000.wal")
    );
    assert_eq!(
        not_padded,
        parse_reason("r-1_0100_000_000_001_200_000.wal")
    );
    assert_eq!(
        not_padded,
        parse_reason("r-00_000_000_000_000_000_00_.wal")
    );

    // Plain digits.
    let name = format!("r-{}1.wal", "0".repeat(25));
    assert_eq!(not_padded, parse_reason(&name));

    // Eleven two-byte characters and four digits.
    let name = format!("r-12{}34.wal", "é".repeat(11));
    assert_eq!(not_padded, parse_reason(&name));
}

#[test]
fn test_parse_counts_bytes() {
    // Thirteen two-byte characters.
    let name = format!("r-{}.wal", "é".repeat(13));
    assert!(parse_reason(&name).starts_with("cannot parse as u64"));

    // Twenty-six characters, but more bytes.
    let name = format!("r-{}.wal", "é".repeat(26));
    assert_eq!("does not have 26 digit after 'r-' prefix", parse_reason(&name));
}

#[test]
fn test_parse_rejects_a_number_too_large() {
    assert!(
        parse_reason("r-18_446_744_073_709_551_616.wal").starts_with("cannot parse as u64")
    );
    assert_eq!(
        Ok(u64::MAX),
        Config::parse_chunk_file_name("r-18_446_744_073_709_551_615.wal")
    );
}

#[test]
fn test_file_name_round_trip() {
    for id in [0, 1, 9, 10, 999, 1_000, 1_200_000, u64::MAX - 1, u64::MAX] {
        let name = Config::chunk_file_name(ChunkId(id));
        assert_eq!(Ok(id), Config::parse_chunk_file_name(&name));
    }
}

#[test]
fn test_file_names_sort_as_chunks() {
    let ids = [0, 9, 10, 99, 100, 1_000, 99_999, 100_000, u64::MAX];
    let names = ids
        .iter()
        .map(|id| Config::chunk_file_name(ChunkId(*id)))
        .collect::<Vec<_>>();

    let mut sorted = names.clone();
    sorted.sort();
    assert_eq!(names, sorted);

    sorted.dedup();
    assert_eq!(ids.len(), sorted.len());
}
