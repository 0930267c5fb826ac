use std::io;
use std::sync::Arc;

use chunked_wal::chunk::file_slot::FileSlot;
use chunked_wal::Error;

#[test]
fn test_ready_slot_returns_file() -> Result<(), io::Error> {
    let f = Arc::new(tempfile::tempfile()?);
    let slot = FileSlot::ready(f.clone());

    assert!(Arc::ptr_eq(&f, &slot.get().unwrap()));
    assert!(Arc::ptr_eq(&f, &slot.wait().unwrap().unwrap()));

    Ok(())
}

#[test]
fn test_pending_slot_yields_file_once_set() -> Result<(), io::Error> {
    let mut slot = FileSlot::pending();
    assert!(slot.get().is_none());
    assert!(slot.wait().is_none());

    let f = Arc::new(tempfile::tempfile()?);
    slot.set(f.clone());

    assert!(Arc::ptr_eq(&f, &slot.get().unwrap()));
    assert!(Arc::ptr_eq(&f, &slot.wait().unwrap().unwrap()));

    Ok(())
}

#[test]
fn test_failed_slot_returns_error() {
    let mut slot = FileSlot::<()>::pending();
    slot.fail(&Error::new(io::ErrorKind::StorageFull, "no space"));

    let err = slot.wait().unwrap().unwrap_err();
    assert_eq!(io::ErrorKind::StorageFull, err.kind());
    assert!(err.to_string().contains("no space"));
    assert!(slot.get().is_none());
}

#[test]
fn test_fail_does_not_override_ready() -> Result<(), io::Error> {
    let f = Arc::new(tempfile::tempfile()?);
    let mut slot = FileSlot::ready(f.clone());
    slot.fail(&Error::new(io::ErrorKind::Other, "late failure"));

    assert!(Arc::ptr_eq(&f, &slot.wait().unwrap().unwrap()));

    Ok(())
}

#[test]
fn test_first_failure_stays() {
    let mut slot = FileSlot::<()>::pending();
    slot.fail(&Error::new(io::ErrorKind::NotFound, "first"));
    slot.fail(&Error::new(io::ErrorKind::Other, "second"));

    let err = slot.wait().unwrap().unwrap_err();
    assert_eq!(io::ErrorKind::NotFound, err.kind());
    assert_eq!("chunk file was never created: first", err.to_string());
}

#[test]
fn test_slot_debug() {
    let mut slot = FileSlot::<()>::pending();
    assert_eq!("FileSlot(Pending)", slot.debug_string(""));

    slot.fail(&Error::new(io::ErrorKind::StorageFull, "no \"space\""));
    assert_eq!(
        "FileSlot { failed_kind: StorageFull, failed_error: \"no \\\"space\\\"\" }",
        slot.debug_string("")
    );

    let slot = FileSlot::ready(Arc::new(7));
    assert_eq!("FileSlot(7)", slot.debug_string("7"));
}
