use std::io;

use chunked_wal::Config;
use chunked_wal::Error;
use chunked_wal::WalLock;
use fs2::FileExt;
use tempfile::Builder;

/// Locks an open lock file.
fn lock<F: FileExt>(config: &Config, opened: Result<F, io::Error>) -> Result<WalLock<F>, Error> {
    let f = WalLock::opened(
        config,
        opened.map_err(|e| Error::new(e.kind(), &e.to_string())),
    )?;
    let locked = f
        .try_lock_exclusive()
        .map_err(|e| Error::new(e.kind(), &e.to_string()));
    WalLock::new(config, f, locked)
}

#[test]
fn test_lock_file() {
    let temp_dir = tempfile::tempdir().unwrap();
    let config = Config::new(temp_dir.path().to_str().unwrap());
    let file = Builder::new()
        .prefix("LOCK")
        .rand_bytes(0)
        .tempfile_in(temp_dir.path())
        .unwrap();

    let lf = lock(&config, file.reopen()).unwrap();
    println!("Directory locked successfully");
    assert_eq!(file.path().to_str().unwrap(), lf.path);

    let lf2 = lock(&config, file.reopen());
    assert!(lf2.is_err());
    assert_eq!(io::ErrorKind::WouldBlock, lf2.unwrap_err().kind());

    lf.f.unlock().unwrap();
    drop(lf);
    let _lf2 = lock(&config, file.reopen()).unwrap();
    println!("Directory locked successfully after dropping first lock");
}

#[test]
fn test_lock_path() {
    let config = Config::new("wal-dir");
    assert_eq!("wal-dir/LOCK", WalLock::<()>::lock_path(&config));
}

#[test]
fn test_lock_is_held_once_the_file_is_locked() {
    let config = Config::new("wal-dir");

    let f = WalLock::opened(&config, Ok(7)).unwrap();
    let lock = WalLock::new(&config, f, Ok(())).unwrap();

    assert_eq!("wal-dir/LOCK", lock.path);
    assert_eq!(7, lock.f);
}

#[test]
fn test_open_error_gets_context() {
    let config = Config::new("wal-dir");

    let err = WalLock::<()>::opened(
        &config,
        Err(Error::new(io::ErrorKind::PermissionDenied, "denied")),
    )
    .unwrap_err();

    assert_eq!(io::ErrorKind::PermissionDenied, err.kind());
    assert_eq!(
        "denied; when:(create lock file 'wal-dir/LOCK')",
        err.to_string()
    );
}

#[test]
fn test_lock_held_by_another_process_is_reported() {
    let config = Config::new("wal-dir");

    let err = WalLock::new(
        &config,
        (),
        Err(Error::new(io::ErrorKind::Other, "taken")),
    )
    .unwrap_err();

    assert_eq!(io::ErrorKind::WouldBlock, err.kind());
    assert_eq!(
        "Directory 'wal-dir' is already locked by another process, \
         shutdown other process to continue; error:(taken)",
        err.to_string()
    );
}
