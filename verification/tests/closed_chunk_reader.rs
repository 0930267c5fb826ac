use std::collections::BTreeMap;
use std::io;
use std::io::Read;
use std::io::Seek;
use std::io::SeekFrom;
use std::io::Write;
use std::sync::Arc;

use chunked_wal::chunk::closed_chunk::ClosedChunk;
use chunked_wal::chunk::open_chunk::OpenChunk;
use chunked_wal::wal::closed_chunk_reader::RecordLocation;
use chunked_wal::ChunkId;
use chunked_wal::ClosedChunkReader;
use chunked_wal::Error;
use chunked_wal::Segment;
use chunked_wal::WalTypes;
use codeq::Decode;
use codeq::Encode;
use tempfile::NamedTempFile;

const TEST_CHECKPOINT_TYPE: u32 = 0;
const TEST_ACTION_TYPE: u32 = 1;

#[derive(Debug, Clone, PartialEq, Eq)]
enum Record {
    Checkpoint(String),
    Action(String),
}

impl Encode for Record {
    fn encode<W: io::Write>(&self, mut w: W) -> Result<usize, io::Error> {
        let (type_id, text) = match self {
            Record::Checkpoint(text) => (TEST_CHECKPOINT_TYPE, text),
            Record::Action(text) => (TEST_ACTION_TYPE, text),
        };
        let mut n = type_id.encode(&mut w)?;
        n += text.encode(&mut w)?;
        Ok(n)
    }
}

impl Decode for Record {
    fn decode<R: io::Read>(mut r: R) -> Result<Self, io::Error> {
        let type_id = u32::decode(&mut r)?;
        let text = String::decode(&mut r)?;
        match type_id {
            TEST_CHECKPOINT_TYPE => Ok(Record::Checkpoint(text)),
            TEST_ACTION_TYPE => Ok(Record::Action(text)),
            _ => Err(io::Error::new(
                io::ErrorKind::InvalidData,
                format!("unexpected record type id {type_id}"),
            )),
        }
    }
}

#[derive(Debug, Clone)]
struct TestWal;

impl WalTypes for TestWal {
    type Checkpoint = String;
    type Callback = ();
    type PersistedFn = ();
    type File = NamedTempFile;
    type Slot = ();
    type StatReply = ();
}

fn action(v: &str) -> Record {
    Record::Action(v.to_string())
}

fn encoded(record: &Record) -> (Vec<u8>, Result<usize, Error>) {
    let mut bytes = Vec::new();
    let size = record.encode(&mut bytes).unwrap();
    (bytes, Ok(size))
}

fn build_reader() -> Result<(ClosedChunkReader<TestWal>, Segment), io::Error> {
    let chunk_id = ChunkId(0);
    let file = Arc::new(NamedTempFile::new()?);

    let (bytes, outcome) = encoded(&Record::Checkpoint(String::new()));
    let (mut open, leading) =
        OpenChunk::create_with_initial_record(chunk_id, file.clone(), &bytes, outcome)
            .expect("encoding succeeded");
    file.as_file().write_all(&leading)?;

    let (bytes, outcome) = encoded(&action("val"));
    open.append_record(&bytes, outcome).expect("encoding succeeded");
    let data = open.take_pending_data();
    file.as_file().write_all(&data)?;

    let segment = open.chunk.record_segment(1);

    let chunks = BTreeMap::from([(
        chunk_id.offset(),
        ClosedChunk::new(open.chunk, Arc::new("val".to_string())),
    )]);

    Ok((ClosedChunkReader::new(chunks), segment))
}

fn read_at(location: RecordLocation<'_, TestWal>) -> Result<Record, io::Error> {
    let chunk = &location.closed.chunk;
    let mut file = chunk.f.as_file();
    file.seek(SeekFrom::Start(chunk.position(location.segment)))?;
    let mut bytes = vec![0; location.segment.size() as usize];
    file.read_exact(&mut bytes)?;
    Record::decode(&bytes[..])
}

#[test]
fn test_read_record() -> Result<(), io::Error> {
    let (reader, segment) = build_reader()?;

    let location = reader.read_record(ChunkId(0), segment).unwrap_or_else(|_| panic!("found"));
    assert_eq!(action("val"), read_at(location)?);

    let first = Segment::new(0, segment.offset());
    let location = reader.read_record(ChunkId(0), first).unwrap_or_else(|_| panic!("found"));
    assert_eq!(Record::Checkpoint(String::new()), read_at(location)?);

    Ok(())
}

#[test]
fn test_read_record_returns_not_found_for_missing_chunk() -> Result<(), io::Error> {
    let (reader, segment) = build_reader()?;

    let err = match reader.read_record(ChunkId(1), segment) {
        Ok(_) => panic!("chunk must be missing"),
        Err(err) => err,
    };

    assert_eq!(io::ErrorKind::NotFound, err.kind());
    assert_eq!(
        "Chunk not found: ChunkId(00_000_000_000_000_000_001)",
        err.to_string()
    );

    Ok(())
}

#[test]
fn test_cloned_reader_reads_the_same_records() -> Result<(), io::Error> {
    let (reader, segment) = build_reader()?;
    let copy = reader.clone();
    assert_eq!(format!("{reader:?}"), format!("{copy:?}"));
    assert!(format!("{reader:?}").starts_with("ClosedChunkReader"));
    drop(reader);

    let location = copy.read_record(ChunkId(0), segment).unwrap_or_else(|_| panic!("found"));
    assert_eq!(action("val"), read_at(location)?);

    Ok(())
}
