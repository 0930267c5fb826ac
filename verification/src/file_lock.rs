//! The lock that keeps two processes from using one directory.

use crate::config::Config;
use crate::errors::Error;
use codeq::error_context_ext::ErrorContextExt;
use std::io::ErrorKind;
use vstd::prelude::*;
use vstd::string::StringExecFns;

verus! {

/// Name of the lock file in the directory of the log.
pub const LOCK_FILE_NAME: &'static str = "LOCK";

/// A held lock on the directory of the log.
#[derive(Debug)]
pub struct WalLock<F> {
    /// Path of the lock file.
    pub path: String,
    /// The locked file.
    pub f: F,
}

/// Adds context to an error, by `codeq`'s `ErrorContextExt::context` on an
/// `io::Error`.
///
/// The call keeps the error's kind, and appends the context to its text as
/// `; when:(context)`.
#[verifier::external_body]
fn add_context(error: Error, context: &str) -> (r: Error)
    ensures
        r.kind == error.kind,
        r.message@ == error.message@ + "; when:("@ + context@ + ")"@,
{
    let e = std::io::Error::new(error.kind, error.message).context(|| context);
    Error { kind: e.kind(), message: e.to_string() }
}

impl<F> WalLock<F> {
    /// The path of a directory's lock file.
    pub open spec fn path_text(config: Config) -> Seq<char> {
        config.dir@ + "/"@ + LOCK_FILE_NAME@
    }

    /// What comes of locking the opened lock file `f` with the outcome `locked`.
    pub open spec fn grants(
        config: Config,
        f: F,
        locked: Result<(), Error>,
        r: Result<Self, Error>,
    ) -> bool {
        match locked {
            Ok(_) => {
                &&& r matches Ok(lock)
                &&& lock.path@ == Self::path_text(config)
                &&& lock.f == f
            },
            Err(error) => {
                &&& r matches Err(e)
                &&& e.kind == ErrorKind::WouldBlock
                &&& e.message@ == "Directory '"@ + config.dir@
                    + "' is already locked by another process, shutdown other process to continue; error:("@
                    + error.message@ + ")"@
            },
        }
    }

    /// Returns the path of a directory's lock file.
    pub fn lock_path(config: &Config) -> (r: String)
        ensures
            r@ == Self::path_text(*config),
    {
        let mut path = config.dir.clone();
        path.append("/");
        path.append(LOCK_FILE_NAME);
        path
    }

    /// Takes the outcome of creating and opening the lock file.
    pub fn opened(config: &Config, result: Result<F, Error>) -> (r: Result<F, Error>)
        ensures
            match result {
                Ok(f) => r == Ok::<F, Error>(f),
                Err(error) => {
                    &&& r matches Err(e)
                    &&& e.kind == error.kind
                    &&& e.message@ == error.message@ + "; when:("@ + ("create lock file '"@
                        + Self::path_text(*config) + "'"@) + ")"@
                },
            },
    {
        match result {
            Ok(f) => Ok(f),
            Err(error) => {
                let mut context = String::from_str("create lock file '");
                context.append(Self::lock_path(config).as_str());
                context.append("'");
                Err(add_context(error, context.as_str()))
            },
        }
    }

    /// Takes the outcome of locking the opened lock file.
    pub fn new(config: &Config, f: F, locked: Result<(), Error>) -> (r: Result<Self, Error>)
        ensures
            match locked {
                Ok(_) => {
                    &&& r matches Ok(lock)
                    &&& lock.path@ == Self::path_text(*config)
                    &&& lock.f == f
                },
                Err(error) => {
                    &&& r matches Err(e)
                    &&& e.kind == ErrorKind::WouldBlock
                    &&& e.message@ == "Directory '"@ + config.dir@
                        + "' is already locked by another process, shutdown other process to continue; error:("@
                        + error.message@ + ")"@
                },
            },
            Self::grants(*config, f, locked, r),
    {
        match locked {
            Ok(_) => Ok(WalLock { path: Self::lock_path(config), f }),
            Err(error) => {
                let mut message = String::from_str("Directory '");
                message.append(config.dir.as_str());
                message.append(
                    "' is already locked by another process, shutdown other process to continue; error:(",
                );
                message.append(error.message.as_str());
                message.append(")");
                Err(Error { kind: ErrorKind::WouldBlock, message })
            },
        }
    }
}

/// The lock file of a directory is the file `LOCK` in it.
pub proof fn law_lock_file_is_in_the_directory<F>(config: Config)
    ensures
        ({
            let path = WalLock::<F>::path_text(config);
            let len = config.dir@.len() as int;
            &&& path.take(len) == config.dir@
            &&& path.skip(len) == seq!['/', 'L', 'O', 'C', 'K']
        }),
{
    let path = WalLock::<F>::path_text(config);
    let len = config.dir@.len() as int;
    reveal_strlit("/");
    reveal_strlit("LOCK");
    assert(path.take(len) =~= config.dir@);
    assert(path.skip(len) =~= seq!['/', 'L', 'O', 'C', 'K']);
}

/// The directory is locked exactly when its lock file is, by holding that very
/// file. Otherwise the error says that trying again later may help, and names
/// the directory and the reason.
pub proof fn law_lock_is_held_exactly_if_the_file_is_locked<F>(
    config: Config,
    f: F,
    locked: Result<(), Error>,
    r: Result<WalLock<F>, Error>,
)
    requires
        WalLock::<F>::grants(config, f, locked, r),
    ensures
        r is Ok <==> locked is Ok,
        r matches Ok(lock) ==> {
            &&& lock.f == f
            &&& lock.path@ == WalLock::<F>::path_text(config)
        },
        r matches Err(e) ==> {
            let reason = locked->Err_0.message@;
            &&& e.kind == ErrorKind::WouldBlock
            &&& e.message@.take(11 + config.dir@.len() as int) == "Directory '"@ + config.dir@
            &&& e.message@.skip(e.message@.len() - 1 - reason.len()) == reason + ")"@
        },
{
    if let Err(e) = r {
        let reason = locked->Err_0.message@;
        reveal_strlit("Directory '");
        reveal_strlit(")");
        assert(e.message@.take(11 + config.dir@.len() as int) =~= "Directory '"@ + config.dir@);
        assert(e.message@.skip(e.message@.len() - 1 - reason.len()) =~= reason + ")"@);
    }
}

} // verus!
