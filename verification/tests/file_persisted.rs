use std::io;
use std::sync::Arc;
use std::sync::Mutex;

use chunked_wal::wal::file_entry::FileEntry;
use chunked_wal::wal::file_persisted::ChunkPersistedCallback;
use chunked_wal::wal::file_persisted::PersistedCall;
use chunked_wal::ChunkPersisted;
use chunked_wal::WalTypes;
use tempfile::NamedTempFile;

type PersistedFn = Box<dyn Fn(ChunkPersisted<NamedTempFile>, Option<Arc<String>>) + Send + Sync>;

struct TestWal;

impl WalTypes for TestWal {
    type Checkpoint = String;
    type Callback = ();
    type PersistedFn = PersistedFn;
    type File = NamedTempFile;
    type Slot = ();
    type StatReply = ();
}

fn invoke(call: PersistedCall<TestWal>) {
    (call.callback)(call.persisted, call.state);
}

#[test]
fn test_chunk_persisted_debug() -> Result<(), io::Error> {
    let file = tempfile::tempfile()?;
    let persisted = ChunkPersisted {
        file: Arc::new(file),
        starting_offset: 12,
        synced_offset: 34,
    };

    let file = format!("{:?}", persisted.file);
    let got = persisted.debug_string(&file);

    assert!(got.contains("ChunkPersisted"));
    assert!(got.contains("starting_offset: ChunkId(12)"));
    assert!(got.contains("synced_offset: ChunkId(34)"));
    assert!(got.contains(&file));

    Ok(())
}

#[test]
fn test_chunk_persisted_callback_keeps_state() -> Result<(), io::Error> {
    let calls = Arc::new(Mutex::new(Vec::new()));
    let callback: PersistedFn = {
        let calls = calls.clone();
        Box::new(move |persisted, checkpoint| {
            calls.lock().unwrap().push((
                persisted.starting_offset,
                persisted.synced_offset,
                checkpoint.as_deref().cloned(),
            ));
        })
    };

    let cb = ChunkPersistedCallback::<TestWal>::new(
        Arc::new(callback),
        Some(Arc::new("prev".to_string())),
    );

    invoke(cb.call(ChunkPersisted {
        file: Arc::new(NamedTempFile::new()?),
        starting_offset: 1,
        synced_offset: 2,
    }));
    invoke(cb.call(ChunkPersisted {
        file: Arc::new(NamedTempFile::new()?),
        starting_offset: 3,
        synced_offset: 4,
    }));

    assert_eq!(
        vec![
            (1, 2, Some("prev".to_string())),
            (3, 4, Some("prev".to_string())),
        ],
        *calls.lock().unwrap()
    );

    Ok(())
}

#[test]
fn test_chunk_persisted_callback_without_state() -> Result<(), io::Error> {
    let cb = ChunkPersistedCallback::<TestWal>::new(
        Arc::new(Box::new(|_persisted, state| assert!(state.is_none()))),
        None,
    );

    invoke(cb.call(ChunkPersisted {
        file: Arc::new(NamedTempFile::new()?),
        starting_offset: 1,
        synced_offset: 2,
    }));

    Ok(())
}

#[test]
fn test_file_entry_renderings() -> Result<(), io::Error> {
    let on_persisted =
        ChunkPersistedCallback::new(Arc::new(Box::new(|_, _| ()) as PersistedFn), None);
    let mut entry =
        FileEntry::<TestWal>::new(12, Arc::new(NamedTempFile::new()?), on_persisted);
    assert_eq!(0, entry.sync_id);
    entry.sync_id = 34;

    assert_eq!(
        "FileEntry{ starting_offset: ChunkId(00_000_000_000_000_000_012), sync_id: 34 }",
        entry.to_string()
    );
    assert_eq!(
        "FileEntry { starting_offset: ChunkId(12), sync_id: 34 }",
        entry.debug_string()
    );

    Ok(())
}
