//! Value files that are open for appending.

use vstd::prelude::*;
use crate::error::Error;
use crate::file_id::FileId;

verus! {

/// An exclusive file as contracts speak of it.
pub struct ExclusiveFileView {
    pub id: Seq<u8>,
    pub next_write_offset: u64,
    pub last_committed_offset: u64,
}

impl ExclusiveFileView {
    /// Whether every byte of the file belongs to a commit that has ended.
    pub open spec fn is_committed(self) -> bool {
        self.last_committed_offset == self.next_write_offset
    }
}

/// A value file that its holder has open and locked for appending: the
/// file's identity, the offset at which the next byte is written, and the
/// offset up to which the file's bytes belong to commits that have ended.
#[derive(Debug)]
pub struct ExclusiveFile {
    id: FileId,
    next_write_offset: u64,
    last_committed_offset: u64,
}

impl View for ExclusiveFile {
    type V = ExclusiveFileView;

    closed spec fn view(&self) -> ExclusiveFileView {
        ExclusiveFileView {
            id: self.id@,
            next_write_offset: self.next_write_offset,
            last_committed_offset: self.last_committed_offset,
        }
    }
}

impl ExclusiveFile {
    /// A file that was just created: empty, and locked by its creator.
    pub fn new(id: FileId) -> (file: ExclusiveFile)
        ensures
            file@ == (ExclusiveFileView { id: id@, next_write_offset: 0, last_committed_offset: 0 }),
    {
        ExclusiveFile { id, next_write_offset: 0, last_committed_offset: 0 }
    }

    /// A file of `len` bytes that was opened for appending. `locked` says
    /// whether the exclusive lock could be taken. A file that is locked by
    /// someone else is not available: it is never handed out.
    pub fn open(id: FileId, locked: bool, len: u64) -> (file: Option<ExclusiveFile>)
        ensures
            file is Some <==> locked,
            file matches Some(opened) ==> opened@ == (ExclusiveFileView {
                id: id@,
                next_write_offset: len,
                last_committed_offset: len,
            }),
    {
        if locked {
            Some(ExclusiveFile { id, next_write_offset: len, last_committed_offset: len })
        } else {
            None
        }
    }

    /// The identity of the file.
    pub fn id(&self) -> (id: &FileId)
        ensures
            id@ == self@.id,
    {
        &self.id
    }

    /// The offset at which the next byte is written.
    pub fn next_write_offset(&self) -> (offset: u64)
        ensures
            offset == self@.next_write_offset,
    {
        self.next_write_offset
    }

    /// The offset up to which the file belongs to commits that have ended.
    pub fn last_committed_offset(&self) -> (offset: u64)
        ensures
            offset == self@.last_committed_offset,
    {
        self.last_committed_offset
    }

    /// Whether every byte of the file belongs to a commit that has ended.
    pub fn is_committed(&self) -> (committed: bool)
        ensures
            committed == self@.is_committed(),
    {
        self.last_committed_offset == self.next_write_offset
    }

    /// Takes note that `count` bytes were appended. Fails with
    /// [`Error::Conversion`], and takes no note, where the file would grow
    /// beyond what an offset can say.
    pub fn wrote(&mut self, count: u64) -> (noted: Result<(), Error>)
        ensures
            old(self)@.next_write_offset + count <= u64::MAX ==> noted is Ok && final(self)@ == (
            ExclusiveFileView {
                next_write_offset: (old(self)@.next_write_offset + count) as u64,
                ..old(self)@
            }),
            old(self)@.next_write_offset + count > u64::MAX ==> noted == Err::<(), Error>(
                Error::Conversion,
            ) && final(self)@ == old(self)@,
        no_unwind
    {
        if count > u64::MAX - self.next_write_offset {
            Err(Error::Conversion)
        } else {
            self.next_write_offset = self.next_write_offset + count;
            Ok(())
        }
    }

    /// Takes note that the commit which wrote the file's last bytes has ended.
    pub fn committed(&mut self)
        ensures
            final(self)@ == (ExclusiveFileView {
                last_committed_offset: old(self)@.next_write_offset,
                ..old(self)@
            }),
            final(self)@.is_committed(),
    {
        self.last_committed_offset = self.next_write_offset;
    }
}

} // verus!
