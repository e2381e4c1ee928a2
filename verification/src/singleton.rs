//! The decisions of the flock(2)-based single-instance guard.
//!
//! Ownership is an exclusive lock on `$XDG_RUNTIME_DIR/<name>.lock`; the
//! file is opened and locked by the caller, which hands the outcome here.

use std::io::Error as IoError;

use vstd::prelude::*;
use vstd::utf8::encode_utf8;

use crate::text::push_str;
use crate::xdg_paths::{error_text, lossy_utf8, spec_join, spec_lossy_utf8, BaseDirs, Error as PathsError};

verus! {

/// The lock file for the single instance `name`: `<name>.lock` in the
/// runtime dir.
pub fn lock_path(dirs: &BaseDirs, name: &str) -> (p: Vec<u8>)
    ensures
        p@ == spec_join(dirs@.runtime_dir, encode_utf8(name@ + ".lock"@)),
{
    let mut file = String::new();
    push_str(&mut file, name);
    push_str(&mut file, ".lock");
    dirs.runtime_path(file.as_str())
}

/// What a non-blocking exclusive `flock` on the lock file means.
#[derive(Clone, Copy, Debug, PartialEq, Eq, Structural)]
pub enum LockOutcome {
    /// The lock is ours: this process is the single instance.
    Owned,
    /// A live process holds it.
    Busy,
    /// Locking failed for another reason.
    Failed,
}

/// The outcome of `flock(fd, LOCK_EX | LOCK_NB)` returning `rc`, where
/// `would_block` says whether the error was `EWOULDBLOCK`. A held lock means
/// a live owner: it is reported, never waited for.
pub fn flock_outcome(rc: i32, would_block: bool) -> (o: LockOutcome)
    ensures
        o == (if rc == 0 {
            LockOutcome::Owned
        } else if would_block {
            LockOutcome::Busy
        } else {
            LockOutcome::Failed
        }),
{
    if rc == 0 {
        LockOutcome::Owned
    } else if would_block {
        LockOutcome::Busy
    } else {
        LockOutcome::Failed
    }
}

/// `std::io::Error`, carried through as the cause of a failed open or lock.
#[verifier::external_type_specification]
#[verifier::external_body]
pub struct ExIoError(IoError);

/// Why the single-instance lock could not be taken.
#[derive(Debug)]
pub enum Error {
    /// `$XDG_RUNTIME_DIR` missing, empty, or not absolute.
    RuntimeDir(PathsError),
    /// Opening or locking the lock file (this path) failed for a reason
    /// other than a live owner.
    Io(Vec<u8>, IoError),
}

/// `std::io::Error`'s `Display` text. It comes from the operating system's
/// description of the error, so nothing is stated of it.
#[verifier::external_body]
fn io_message(e: &IoError) -> String {
    e.to_string()
}

impl Error {
    /// The message `Display` shows: `singleton lock: <cause>` when the
    /// runtime dir is unusable, `singleton lock <path>: <cause>` when the
    /// lock file could not be opened or locked.
    pub fn to_string(&self) -> (s: String)
        ensures
            match self {
                Error::RuntimeDir(e) => s@ == "singleton lock: "@ + error_text(e@),
                Error::Io(path, _) => exists|cause: Seq<char>|
                    s@ == #[trigger] ("singleton lock "@ + spec_lossy_utf8(path@) + ": "@ + cause),
            },
    {
        let mut s = String::new();
        match self {
            Error::RuntimeDir(e) => {
                push_str(&mut s, "singleton lock: ");
                let cause = e.to_string();
                push_str(&mut s, cause.as_str());
            },
            Error::Io(path, e) => {
                push_str(&mut s, "singleton lock ");
                let shown = lossy_utf8(path.as_slice());
                push_str(&mut s, shown.as_str());
                push_str(&mut s, ": ");
                let cause = io_message(e);
                push_str(&mut s, cause.as_str());
                assert(s@ == "singleton lock "@ + spec_lossy_utf8(path@) + ": "@ + cause@);
            },
        }
        s
    }
}

} // verus!
