//! Advisory locks on files.
//!
//! A lock is asked of the operating system as a record that describes the
//! byte range and the kind of lock. The functions here make up that
//! record and read the system's answer; the call itself is the caller's.

use vstd::prelude::*;
use crate::error::{Error, IoErrorKind};

verus! {

/// What is asked of a lock, and whether to wait for it.
#[derive(Debug, Clone, Copy, PartialEq, Eq, Structural)]
pub enum FlockArg {
    LockShared,
    LockExclusive,
    Unlock,
    LockSharedNonblock,
    LockExclusiveNonblock,
    UnlockNonblock,
}

/// A position in a file, counted from the start, from the end or from
/// the current position.
#[derive(Debug, Clone, Copy, PartialEq, Eq, Structural)]
pub enum SeekFrom {
    Start(u64),
    End(i64),
    Current(i64),
}

/// The kind of a lock record.
#[derive(Debug, Clone, Copy, PartialEq, Eq, Structural)]
pub enum LockType {
    /// A shared lock: others may read.
    Read,
    /// An exclusive lock.
    Write,
    /// No lock: what was locked is released.
    Unlock,
}

/// What an offset of a lock record counts from.
#[derive(Debug, Clone, Copy, PartialEq, Eq, Structural)]
pub enum Whence {
    /// The start of the file.
    FromStart,
    /// The current position.
    FromCurrent,
    /// The end of the file.
    FromEnd,
}

/// The command that asks for a lock on the open file description and
/// waits until it is granted.
pub const LOCK_COMMAND_WAIT: i32 = 91;

/// The command that asks for a lock on the open file description and
/// fails at once if it is not to be had.
pub const LOCK_COMMAND_NO_WAIT: i32 = 90;

/// A request for a lock on a byte range of a file.
#[derive(Debug, Clone, Copy, PartialEq, Eq, Structural)]
pub struct FileLock {
    /// The command to give the request with.
    pub command: i32,
    /// The kind of lock.
    pub lock_type: LockType,
    /// What `start` counts from.
    pub whence: Whence,
    /// Where the range starts.
    pub start: i64,
    /// How many bytes the range has; zero for all bytes to the end of the
    /// file, however long the file grows.
    pub len: i64,
    /// The process that holds the lock; zero in a request.
    pub pid: i32,
}

/// The offset of a position, as a lock record holds it. An offset from
/// the start that is above `i64::MAX` wraps around.
pub open spec fn seek_from_offset_spec(seek_from: SeekFrom) -> i64 {
    match seek_from {
        SeekFrom::Start(offset) => if offset <= i64::MAX {
            offset as i64
        } else {
            (offset - 0x1_0000_0000_0000_0000) as i64
        },
        SeekFrom::End(offset) => offset,
        SeekFrom::Current(offset) => offset,
    }
}

/// What a position counts from.
pub open spec fn seek_from_whence_spec(seek_from: SeekFrom) -> Whence {
    match seek_from {
        SeekFrom::Start(_) => Whence::FromStart,
        SeekFrom::Current(_) => Whence::FromCurrent,
        SeekFrom::End(_) => Whence::FromEnd,
    }
}

/// The kind of lock record that asks for `arg`.
pub open spec fn lock_type_spec(arg: FlockArg) -> LockType {
    match arg {
        FlockArg::LockShared | FlockArg::LockSharedNonblock => LockType::Read,
        FlockArg::LockExclusive | FlockArg::LockExclusiveNonblock => LockType::Write,
        FlockArg::Unlock | FlockArg::UnlockNonblock => LockType::Unlock,
    }
}

/// The command that asks for `arg`.
pub open spec fn lock_command_spec(arg: FlockArg) -> i32 {
    match arg {
        FlockArg::LockShared | FlockArg::LockExclusive | FlockArg::Unlock => LOCK_COMMAND_WAIT,
        FlockArg::LockSharedNonblock
        | FlockArg::LockExclusiveNonblock
        | FlockArg::UnlockNonblock => LOCK_COMMAND_NO_WAIT,
    }
}

/// The request that asks for `arg` on the range of `len` bytes at `whence`.
pub open spec fn lock_file_segment_spec(arg: FlockArg, len: Option<i64>, whence: SeekFrom) -> FileLock {
    FileLock {
        command: lock_command_spec(arg),
        lock_type: lock_type_spec(arg),
        whence: seek_from_whence_spec(whence),
        start: seek_from_offset_spec(whence),
        len: match len {
            Some(len) => len,
            None => 0,
        },
        pid: 0,
    }
}

/// The offset of a position, as a lock record holds it.
pub fn seek_from_offset(seek_from: SeekFrom) -> (offset: i64)
    ensures
        offset == seek_from_offset_spec(seek_from),
{
    match seek_from {
        SeekFrom::Start(offset) => if offset <= 0x7fff_ffff_ffff_ffff {
            offset as i64
        } else {
            let above: u64 = offset - 0x8000_0000_0000_0000;
            (above as i64) + i64::MIN
        },
        SeekFrom::End(offset) => offset,
        SeekFrom::Current(offset) => offset,
    }
}

/// What a position counts from.
pub fn seek_from_whence(seek_from: SeekFrom) -> (whence: Whence)
    ensures
        whence == seek_from_whence_spec(seek_from),
{
    match seek_from {
        SeekFrom::Start(_) => Whence::FromStart,
        SeekFrom::Current(_) => Whence::FromCurrent,
        SeekFrom::End(_) => Whence::FromEnd,
    }
}

/// Makes up the request that asks for `arg` on a range of a file: `len`
/// bytes from `whence` on, or all bytes from `whence` to the end of the
/// file, however long it grows, where `len` is `None`. A length of zero
/// would mean the same to the operating system, and has to be given as
/// `None`.
pub fn lock_file_segment(arg: FlockArg, len: Option<i64>, whence: SeekFrom) -> (request: FileLock)
    requires
        len != Some(0i64),
    ensures
        request == lock_file_segment_spec(arg, len, whence),
{
    FileLock {
        start: seek_from_offset(whence),
        len: match len {
            Some(len) => len,
            None => 0,
        },
        pid: 0,
        lock_type: match arg {
            FlockArg::LockShared | FlockArg::LockSharedNonblock => LockType::Read,
            FlockArg::LockExclusive | FlockArg::LockExclusiveNonblock => LockType::Write,
            FlockArg::Unlock | FlockArg::UnlockNonblock => LockType::Unlock,
        },
        whence: seek_from_whence(whence),
        command: match arg {
            FlockArg::LockShared | FlockArg::LockExclusive | FlockArg::Unlock => LOCK_COMMAND_WAIT,
            FlockArg::LockSharedNonblock
            | FlockArg::LockExclusiveNonblock
            | FlockArg::UnlockNonblock => LOCK_COMMAND_NO_WAIT,
        },
    }
}

/// The request that asks for `arg` on a whole file.
pub fn whole_file_lock(arg: FlockArg) -> (request: FileLock)
    ensures
        request == lock_file_segment_spec(arg, None, SeekFrom::Start(0)),
{
    lock_file_segment(arg, None, SeekFrom::Start(0))
}

/// Reads the operating system's answer to a request for a lock:
/// `flock_res` is the failure of the request, if it failed. A lock that
/// someone else holds is no failure: the answer is that the file is not
/// locked now. Any other failure is passed on.
pub fn try_lock_file(flock_res: Option<IoErrorKind>) -> (locked: Result<bool, Error>)
    ensures
        locked == match flock_res {
            None => Ok::<bool, Error>(true),
            Some(IoErrorKind::WouldBlock) => Ok::<bool, Error>(false),
            Some(kind) => Err::<bool, Error>(Error::Io(kind)),
        },
{
    match flock_res {
        None => Ok(true),
        Some(IoErrorKind::WouldBlock) => Ok(false),
        Some(kind) => Err(Error::Io(kind)),
    }
}

} // verus!
