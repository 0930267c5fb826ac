use std::io;

use chunked_wal::chunk::layout::Chunk;
use chunked_wal::chunk::open_chunk::OpenChunk;
use chunked_wal::ChunkId;
use chunked_wal::Error;
use chunked_wal::Segment;

#[test]
fn test_records_follow_one_another() {
    let mut open = OpenChunk::from_file(ChunkId(100), ()).unwrap();
    assert_eq!(0, open.chunk.records_count());
    assert_eq!(100, open.chunk.global_start());
    assert_eq!(100, open.chunk.global_end());

    let a = open.append_record(b"aaa", Ok(3)).unwrap();
    assert_eq!(Segment::new(100, 3), a);
    assert_eq!(103, a.end());

    let b = open.append_record(b"bb", Ok(2)).unwrap();
    assert_eq!(Segment::new(103, 2), b);
    assert_eq!(a.end(), b.offset());

    assert_eq!(2, open.chunk.records_count());
    assert_eq!(a, open.chunk.record_segment(0));
    assert_eq!(b, open.chunk.record_segment(1));
    assert_eq!(b, open.chunk.last_segment());
    assert_eq!(100, open.chunk.global_start());
    assert_eq!(105, open.chunk.global_end());
    assert_eq!(ChunkId(100), open.chunk.chunk_id());
    assert_eq!(None, open.chunk.truncated_file_size());
    assert_eq!(3, open.chunk.position(b));
}

#[test]
fn test_take_pending_data_hands_everything_out_once() {
    let mut open = OpenChunk::new(Chunk::new(ChunkId(0), ()));
    open.append_record(b"aaa", Ok(3)).unwrap();
    open.append_record(b"bb", Ok(2)).unwrap();

    assert_eq!(b"aaabb".to_vec(), open.take_pending_data());
    assert!(open.take_pending_data().is_empty());

    open.append_record(b"c", Ok(1)).unwrap();
    assert_eq!(b"c".to_vec(), open.take_pending_data());
    assert_eq!(6, open.chunk.global_end());
}

#[test]
fn test_failed_encoding_adds_no_record() {
    let mut open = OpenChunk::new(Chunk::new(ChunkId(0), ()));

    let err = open
        .append_record(b"par", Err(Error::new(io::ErrorKind::InvalidData, "bad record")))
        .unwrap_err();

    assert_eq!(io::ErrorKind::InvalidData, err.kind());
    assert_eq!("bad record", err.to_string());
    assert_eq!(0, open.chunk.records_count());
    assert_eq!(0, open.chunk.global_end());
    assert_eq!(b"par".to_vec(), open.take_pending_data());
}

#[test]
fn test_initial_record_is_left_to_write() {
    let (mut open, leading) =
        OpenChunk::create_with_initial_record(ChunkId(34), (), b"checkpoint", Ok(10)).unwrap();

    assert_eq!(b"checkpoint".to_vec(), leading);
    assert!(open.take_pending_data().is_empty());
    assert_eq!(1, open.chunk.records_count());
    assert_eq!(Segment::new(34, 10), open.chunk.last_segment());

    let err = OpenChunk::create_with_initial_record(
        ChunkId(34),
        (),
        b"",
        Err(Error::new(io::ErrorKind::Other, "cannot encode")),
    )
    .unwrap_err();
    assert_eq!("cannot encode", err.to_string());
}

#[test]
fn test_appended_segments_tile_the_chunk() {
    let mut open = OpenChunk::from_file(ChunkId(7), ()).unwrap();
    let records: Vec<Vec<u8>> = (0..20u8).map(|i| vec![i; (i % 4) as usize]).collect();

    let mut end = 7;
    for record in &records {
        let segment = open.append_record(record, Ok(record.len())).unwrap();
        assert_eq!(Segment::new(end, record.len() as u64), segment);
        end = segment.end();
    }

    assert_eq!(end, open.chunk.global_end());
    let data = open.take_pending_data();
    assert_eq!(end - 7, data.len() as u64);
    assert_eq!(records.concat(), data);
    assert!(open.take_pending_data().is_empty());
    assert_eq!(20, open.chunk.records_count());
}
