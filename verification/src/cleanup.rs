//! Sweeping the snapshot directories of a store.
//!
//! A reader keeps a shared lock on each clone that its snapshot reads
//! from, for as long as the snapshot lives, and the operating system
//! drops the lock when the reader's process ends. A clone on which the
//! exclusive lock can be had is therefore a clone that nobody reads, of
//! this process or another, and only such a clone is deleted.

use vstd::prelude::*;
use crate::error::{Error, IoErrorKind};
use crate::names::{
    starts_with, valid_file_name, valid_file_name_spec, MANIFEST_DB_FILE_NAME,
    SNAPSHOT_DIR_NAME_PREFIX,
};

verus! {

/// What an entry of a store directory is.
#[derive(Debug, Clone, Copy, PartialEq, Eq, Structural)]
pub enum EntryType {
    /// A value file.
    ValuesFile,
    /// A directory of clones.
    SnapshotDir,
    /// A clone of a value file, in a snapshot directory.
    SnapshotValue,
    /// The manifest.
    ManifestFile,
    /// Anything else.
    Other,
}

/// What the entry called `name` is, by the layout of a store directory:
/// whatever lies in a snapshot directory is a clone; in the store
/// directory itself, a name with the prefix of snapshot directories is a
/// snapshot directory, a name that starts with the name of the manifest
/// belongs to the manifest, and a valid value file name is a value file.
pub open spec fn classify_entry_spec(name: Seq<u8>, in_snapshot_dir: bool) -> EntryType {
    if in_snapshot_dir {
        EntryType::SnapshotValue
    } else if SNAPSHOT_DIR_NAME_PREFIX@.is_prefix_of(name) {
        EntryType::SnapshotDir
    } else if MANIFEST_DB_FILE_NAME@.is_prefix_of(name) {
        EntryType::ManifestFile
    } else if valid_file_name_spec(name) {
        EntryType::ValuesFile
    } else {
        EntryType::Other
    }
}

/// Says what the entry called `name` is. `in_snapshot_dir` tells whether
/// the walk found it in a snapshot directory or in the store directory
/// itself.
pub fn classify_entry(name: &[u8], in_snapshot_dir: bool) -> (entry: EntryType)
    ensures
        entry == classify_entry_spec(name@, in_snapshot_dir),
{
    if in_snapshot_dir {
        EntryType::SnapshotValue
    } else if starts_with(name, &SNAPSHOT_DIR_NAME_PREFIX) {
        EntryType::SnapshotDir
    } else if starts_with(name, &MANIFEST_DB_FILE_NAME) {
        EntryType::ManifestFile
    } else if valid_file_name(name) {
        EntryType::ValuesFile
    } else {
        EntryType::Other
    }
}

/// What the sweep learns of an entry.
#[derive(Debug, Clone, Copy, PartialEq, Eq, Structural)]
pub enum SweepEvent {
    /// The walk came upon the entry.
    Found,
    /// The entry was opened.
    Opened,
    /// The entry could not be opened.
    OpenFailed(IoErrorKind),
    /// The exclusive lock on the entry was asked for without waiting, and
    /// was had or not.
    Locked(bool),
    /// Asking for the lock failed.
    LockFailed(IoErrorKind),
}

/// What the sweep does to an entry next.
#[derive(Debug, Clone, Copy, PartialEq, Eq, Structural)]
pub enum SweepStep {
    /// Leave the entry alone and go on with the walk.
    Skip,
    /// Try to remove the directory. This only succeeds on an empty
    /// directory, and a failure is not reported.
    RemoveDir,
    /// Open the file.
    Open,
    /// Ask for the exclusive lock on the open file without waiting.
    TryLock,
    /// Remove the file, and then try to remove the directory that it was
    /// in. Failures are not reported.
    RemoveFileAndParentDir,
}

/// What the sweep does next to an entry of type `entry`, of which it has
/// learnt `event`.
pub open spec fn sweep_spec(entry: EntryType, event: SweepEvent) -> Result<SweepStep, Error> {
    match (entry, event) {
        (EntryType::SnapshotDir, SweepEvent::Found) => Ok(SweepStep::RemoveDir),
        (EntryType::SnapshotValue, SweepEvent::Found) => Ok(SweepStep::Open),
        (_, SweepEvent::Found) => Ok(SweepStep::Skip),
        (EntryType::SnapshotValue, SweepEvent::Opened) => Ok(SweepStep::TryLock),
        (EntryType::SnapshotValue, SweepEvent::OpenFailed(kind)) => if kind
            == IoErrorKind::NotFound {
            Ok(SweepStep::Skip)
        } else {
            Err(Error::Io(kind))
        },
        (EntryType::SnapshotValue, SweepEvent::Locked(locked)) => if locked {
            Ok(SweepStep::RemoveFileAndParentDir)
        } else {
            Ok(SweepStep::Skip)
        },
        (EntryType::SnapshotValue, SweepEvent::LockFailed(kind)) => Err(Error::Io(kind)),
        _ => Err(Error::UnexpectedEvent),
    }
}

/// Decides what the sweep of the snapshot directories does next to an
/// entry of type `entry`, of which it has learnt `event`.
///
/// A snapshot directory is removed if it is empty. A clone is opened and
/// probed with the exclusive lock: it is removed, and its directory after
/// it, only if the lock was had. A clone that is gone by the time it is
/// opened, and one that is still in use, are passed over. Other entries
/// are left alone. A failure to open or to lock ends the sweep; an event
/// that cannot follow on such an entry fails with
/// [`Error::UnexpectedEvent`].
pub fn delete_unused_snapshots(entry: EntryType, event: SweepEvent) -> (step: Result<SweepStep, Error>)
    ensures
        step == sweep_spec(entry, event),
        step == Ok::<SweepStep, Error>(SweepStep::RemoveFileAndParentDir) <==> entry
            == EntryType::SnapshotValue && event == SweepEvent::Locked(true),
        step == Ok::<SweepStep, Error>(SweepStep::RemoveDir) <==> entry == EntryType::SnapshotDir
            && event == SweepEvent::Found,
{
    match (entry, event) {
        (EntryType::SnapshotDir, SweepEvent::Found) => Ok(SweepStep::RemoveDir),
        (EntryType::SnapshotValue, SweepEvent::Found) => Ok(SweepStep::Open),
        (_, SweepEvent::Found) => Ok(SweepStep::Skip),
        (EntryType::SnapshotValue, SweepEvent::Opened) => Ok(SweepStep::TryLock),
        (EntryType::SnapshotValue, SweepEvent::OpenFailed(kind)) => {
            if kind == IoErrorKind::NotFound {
                Ok(SweepStep::Skip)
            } else {
                Err(Error::Io(kind))
            }
        },
        (EntryType::SnapshotValue, SweepEvent::Locked(locked)) => {
            if locked {
                Ok(SweepStep::RemoveFileAndParentDir)
            } else {
                Ok(SweepStep::Skip)
            }
        },
        (EntryType::SnapshotValue, SweepEvent::LockFailed(kind)) => Err(Error::Io(kind)),
        _ => Err(Error::UnexpectedEvent),
    }
}

} // verus!
