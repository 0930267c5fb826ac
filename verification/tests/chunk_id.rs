use chunked_wal::ChunkId;

#[test]
fn test_chunk_id_format_and_accessors() {
    let chunk_id = ChunkId::from(1_200_000);

    assert_eq!(1_200_000, *chunk_id);
    assert_eq!(1_200_000, chunk_id.offset());
    assert_eq!("ChunkId(00_000_000_000_001_200_000)", chunk_id.to_string());
}

#[test]
fn test_chunk_id_debug_matches_derived_rendering() {
    for offset in [0, 9, 10, 12, 1_200_000, u64::MAX] {
        let chunk_id = ChunkId(offset);
        assert_eq!(format!("{chunk_id:?}"), chunk_id.debug_string());
    }
}

#[test]
fn test_chunk_id_text_of_extremes() {
    assert_eq!("ChunkId(00_000_000_000_000_000_000)", ChunkId(0).to_string());
    assert_eq!(
        "ChunkId(18_446_744_073_709_551_615)",
        ChunkId(u64::MAX).to_string()
    );
}
