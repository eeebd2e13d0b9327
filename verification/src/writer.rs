//! Writing values: one value at a time into a value file, many values at
//! once into the manifest.

use vstd::prelude::*;
use crate::error::Error;
use crate::exclusive_file::{ExclusiveFile, ExclusiveFileView};
use crate::file_id::{copy_bytes, FileId};
use crate::handle::{files_settled, pool_of, Handle};
use crate::ownedtx::{OwnedTx, PostCommitWork};
use crate::table::{lemma_index_of_unique, FileTable};
use crate::value::{Location, Value, ValueView};

verus! {

/// A write that is staged in a batch, as contracts speak of it.
pub struct PendingWriteView {
    pub key: Seq<u8>,
    pub location: Location,
}

/// A value that was written to a value file and waits for the commit that
/// makes it the value of `key`.
#[derive(Debug)]
pub struct PendingWrite {
    pub key: Vec<u8>,
    pub value_file_offset: u64,
    pub value_length: u64,
    pub value_file_id: FileId,
}

impl View for PendingWrite {
    type V = PendingWriteView;

    open spec fn view(&self) -> PendingWriteView {
        PendingWriteView {
            key: self.key@,
            location: Location {
                file_id: self.value_file_id@,
                offset: self.value_file_offset,
                length: self.value_length,
            },
        }
    }
}

/// The staged writes of `writes`, as contracts speak of them.
pub open spec fn writes_of(writes: Seq<PendingWrite>) -> Seq<PendingWriteView> {
    writes.map_values(|write: PendingWrite| write@)
}

/// What a commit of a batch has done.
#[derive(Debug, Clone, Copy, PartialEq, Eq, Structural)]
pub struct WriteCommitResult {
    count: usize,
}

impl WriteCommitResult {
    /// The number of writes that the commit made.
    pub closed spec fn spec_count(self) -> usize {
        self.count
    }

    /// The number of writes that the commit made.
    pub fn count(&self) -> (count: usize)
        ensures
            count == self.spec_count(),
    {
        self.count
    }
}

/// The writing of one value: the file that takes the value's bytes, and
/// the offset at which the value starts in it.
#[derive(Debug)]
pub struct ValueWriter {
    exclusive_file: ExclusiveFile,
    value_file_offset: u64,
}

impl ValueWriter {
    #[verifier::type_invariant]
    spec fn well_formed(self) -> bool {
        self.value_file_offset <= self.exclusive_file@.next_write_offset
    }

    /// The file that takes the value's bytes.
    pub closed spec fn file(self) -> ExclusiveFileView {
        self.exclusive_file@
    }

    /// The offset at which the value starts in its file.
    pub closed spec fn start(self) -> u64 {
        self.value_file_offset
    }

    /// The number of bytes that the value has so far.
    pub open spec fn spec_value_length(self) -> int {
        self.file().next_write_offset - self.start()
    }

    /// The writing of a value that starts where `file` ends.
    fn at_end_of(file: ExclusiveFile) -> (writer: ValueWriter)
        ensures
            writer.file() == file@,
            writer.start() == file@.next_write_offset,
    {
        let value_file_offset = file.next_write_offset();
        ValueWriter { exclusive_file: file, value_file_offset }
    }

    /// The identity of the file that takes the value's bytes.
    pub fn file_id(&self) -> (id: &FileId)
        ensures
            id@ == self.file().id,
    {
        self.exclusive_file.id()
    }

    /// The offset at which the next byte of the value is written.
    pub fn next_write_offset(&self) -> (offset: u64)
        ensures
            offset == self.file().next_write_offset,
            offset >= self.start(),
    {
        proof {
            use_type_invariant(self);
        }
        self.exclusive_file.next_write_offset()
    }

    /// Takes note of how a copy into the file ended. After a copy of
    /// `count` bytes the value is `count` bytes longer. A copy that failed
    /// leaves the value as it was: the caller winds the file back to
    /// [`ValueWriter::next_write_offset`], and the failure is passed on.
    /// [`Error::Conversion`] where the file would grow beyond what an
    /// offset can say.
    pub fn copy_from(&mut self, copied: Result<u64, Error>) -> (count: Result<u64, Error>)
        ensures
            final(self).start() == old(self).start(),
            final(self).file() == match count {
                Ok(copied_bytes) => ExclusiveFileView {
                    next_write_offset: (old(self).file().next_write_offset + copied_bytes) as u64,
                    ..old(self).file()
                },
                Err(_) => old(self).file(),
            },
            count == match copied {
                Ok(copied_bytes) => if old(self).file().next_write_offset + copied_bytes
                    <= u64::MAX {
                    Ok::<u64, Error>(copied_bytes)
                } else {
                    Err::<u64, Error>(Error::Conversion)
                },
                Err(error) => Err::<u64, Error>(error),
            },
    {
        proof {
            use_type_invariant(&*self);
        }
        match copied {
            Ok(copied_bytes) => match self.exclusive_file.wrote(copied_bytes) {
                Ok(_) => Ok(copied_bytes),
                Err(error) => Err(error),
            },
            Err(error) => Err(error),
        }
    }

    /// Takes note of how a write of bytes into the file ended: the value
    /// is longer by the number of bytes that were written.
    pub fn write(&mut self, written: Result<usize, Error>) -> (count: Result<usize, Error>)
        ensures
            final(self).start() == old(self).start(),
            final(self).file() == match count {
                Ok(written_bytes) => ExclusiveFileView {
                    next_write_offset: (old(self).file().next_write_offset + written_bytes) as u64,
                    ..old(self).file()
                },
                Err(_) => old(self).file(),
            },
            count == match written {
                Ok(written_bytes) => if old(self).file().next_write_offset + written_bytes
                    <= u64::MAX {
                    Ok::<usize, Error>(written_bytes)
                } else {
                    Err::<usize, Error>(Error::Conversion)
                },
                Err(error) => Err::<usize, Error>(error),
            },
    {
        proof {
            use_type_invariant(&*self);
        }
        match written {
            Ok(written_bytes) => match self.exclusive_file.wrote(written_bytes as u64) {
                Ok(_) => Ok(written_bytes),
                Err(error) => Err(error),
            },
            Err(error) => Err(error),
        }
    }

    /// The number of bytes that the value has so far: from its start to
    /// the end of what was written.
    pub fn value_length(&self) -> (length: u64)
        ensures
            length == self.spec_value_length(),
    {
        proof {
            use_type_invariant(self);
        }
        self.exclusive_file.next_write_offset() - self.value_file_offset
    }
}

/// A value that is about to be written in a batch.
#[derive(Debug)]
pub struct BeginWriteValue<'writer> {
    pub batch: &'writer mut BatchWriter,
}

impl<'writer> BeginWriteValue<'writer> {
    /// Starts the value at the end of a file that the batch holds or that
    /// the pool has. `None` where neither has a file: the caller creates
    /// one and starts the value with [`BeginWriteValue::begin_in`].
    pub fn begin(self, handle: &mut Handle) -> (writer: Option<ValueWriter>)
        ensures
            final(self.batch).pending() == old(self.batch).pending(),
            final(handle).spec_dir() == old(handle).spec_dir(),
            final(handle).clone_cache() == old(handle).clone_cache(),
            writer is None <==> old(self.batch).held() == Map::<Seq<u8>, ExclusiveFileView>::empty()
                && old(handle).pool() == Map::<Seq<u8>, ExclusiveFileView>::empty(),
            writer is None ==> {
                &&& final(self.batch).held() == old(self.batch).held()
                &&& final(handle).pool() == old(handle).pool()
            },
            writer matches Some(started) ==> {
                &&& started.start() == started.file().next_write_offset
                &&& taken_from(
                    old(self.batch).held(),
                    old(handle).pool(),
                    started.file(),
                    final(self.batch).held(),
                    final(handle).pool(),
                )
            },
    {
        match self.batch.get_exclusive_file(handle) {
            Some(file) => Some(ValueWriter::at_end_of(file)),
            None => None,
        }
    }

    /// Starts the value at the end of `file`, which the caller has just
    /// created or opened.
    pub fn begin_in(self, file: ExclusiveFile) -> (writer: ValueWriter)
        ensures
            final(self.batch).pending() == old(self.batch).pending(),
            final(self.batch).held() == old(self.batch).held(),
            writer.file() == file@,
            writer.start() == file@.next_write_offset,
    {
        ValueWriter::at_end_of(file)
    }

    /// Takes the whole of `cloned` for the value: a file that the caller
    /// made as a clone of the data to store, and opened at its end.
    pub fn clone_fd(self, cloned: ExclusiveFile) -> (writer: ValueWriter)
        ensures
            final(self.batch).pending() == old(self.batch).pending(),
            final(self.batch).held() == old(self.batch).held(),
            writer.file() == cloned@,
            writer.start() == 0,
    {
        ValueWriter { exclusive_file: cloned, value_file_offset: 0 }
    }
}

/// Whether `file` was taken from the batch's files `held` if there were
/// any, and from `pool` otherwise, leaving `held_after` and `pool_after`.
pub open spec fn taken_from(
    held: Map<Seq<u8>, ExclusiveFileView>,
    pool: Map<Seq<u8>, ExclusiveFileView>,
    file: ExclusiveFileView,
    held_after: Map<Seq<u8>, ExclusiveFileView>,
    pool_after: Map<Seq<u8>, ExclusiveFileView>,
) -> bool {
    if held == Map::<Seq<u8>, ExclusiveFileView>::empty() {
        &&& pool.contains_key(file.id)
        &&& pool[file.id] == file
        &&& pool_after == pool.remove(file.id)
        &&& held_after == held
    } else {
        &&& held.contains_key(file.id)
        &&& held[file.id] == file
        &&& held_after == held.remove(file.id)
        &&& pool_after == pool
    }
}

/// The file `file` once its last commit has ended.
pub open spec fn settled(file: ExclusiveFileView) -> ExclusiveFileView {
    ExclusiveFileView { last_committed_offset: file.next_write_offset, ..file }
}

/// The pool after a batch has given back the files that it held.
pub open spec fn pool_with(
    pool: Map<Seq<u8>, ExclusiveFileView>,
    held: Map<Seq<u8>, ExclusiveFileView>,
) -> Map<Seq<u8>, ExclusiveFileView> {
    Map::new(
        |id: Seq<u8>| pool.contains_key(id) || held.contains_key(id),
        |id: Seq<u8>|
            if held.contains_key(id) {
                settled(held[id])
            } else {
                pool[id]
            },
    )
}

/// The rows that a commit has deleted, out of what the manifest answered
/// to each deletion.
pub open spec fn superseded(deleted: Seq<Option<Value>>) -> Seq<ValueView>
    decreases deleted.len(),
{
    if deleted.len() == 0 {
        Seq::empty()
    } else {
        match deleted.last() {
            Some(value) => superseded(deleted.drop_last()).push(value@),
            None => superseded(deleted.drop_last()),
        }
    }
}

/// Writes that are committed together. The batch holds the files that its
/// values were written to, so that no other writer appends to them before
/// the commit.
#[derive(Debug)]
pub struct BatchWriter {
    exclusive_files: FileTable<ExclusiveFile>,
    pending_writes: Vec<PendingWrite>,
}

/// Whether each file of a table stands under its own identity.
pub open spec fn files_keyed(keys: Seq<Seq<u8>>, files: Seq<ExclusiveFile>) -> bool {
    forall|i: int| 0 <= i < keys.len() && i < files.len() ==> (#[trigger] files[i])@.id == keys[i]
}

impl BatchWriter {
    #[verifier::type_invariant]
    spec fn well_formed(self) -> bool {
        files_keyed(self.exclusive_files.keys(), self.exclusive_files.values())
    }

    /// The files that the batch holds, by identity.
    pub closed spec fn held(self) -> Map<Seq<u8>, ExclusiveFileView> {
        pool_of(self.exclusive_files@)
    }

    /// The writes that are staged, in the order in which they were staged.
    pub closed spec fn pending(self) -> Seq<PendingWriteView> {
        writes_of(self.pending_writes@)
    }

    /// A batch without writes.
    pub fn new() -> (batch: BatchWriter)
        ensures
            batch.held() == Map::<Seq<u8>, ExclusiveFileView>::empty(),
            batch.pending() == Seq::<PendingWriteView>::empty(),
    {
        let batch = BatchWriter { exclusive_files: FileTable::new(), pending_writes: Vec::new() };
        assert(batch.held() =~= Map::<Seq<u8>, ExclusiveFileView>::empty());
        assert(batch.pending() =~= Seq::<PendingWriteView>::empty());
        batch
    }

    /// Takes a file for the next value: one that the batch holds, if it
    /// holds one, and else one out of the pool.
    fn get_exclusive_file(&mut self, handle: &mut Handle) -> (taken: Option<ExclusiveFile>)
        ensures
            final(self).pending() == old(self).pending(),
            final(handle).spec_dir() == old(handle).spec_dir(),
            final(handle).clone_cache() == old(handle).clone_cache(),
            taken is None <==> old(self).held() == Map::<Seq<u8>, ExclusiveFileView>::empty()
                && old(handle).pool() == Map::<Seq<u8>, ExclusiveFileView>::empty(),
            taken is None ==> final(self).held() == old(self).held() && final(handle).pool()
                == old(handle).pool(),
            taken matches Some(file) ==> taken_from(
                old(self).held(),
                old(handle).pool(),
                file@,
                final(self).held(),
                final(handle).pool(),
            ),
    {
        proof {
            use_type_invariant(&*self);
        }
        let ghost keys = self.exclusive_files.keys();
        let ghost before = self.exclusive_files@;
        let count = self.exclusive_files.len();
        if count > 0 {
            let mut exclusive_files: FileTable<ExclusiveFile> = FileTable::new();
            core::mem::swap(&mut exclusive_files, &mut self.exclusive_files);
            let popped = exclusive_files.pop();
            proof {
                lemma_index_of_unique(keys, keys.len() - 1);
                assert(before.contains_key(keys.last()));
                assert(pool_of(before).contains_key(keys.last()));
                assert(pool_of(exclusive_files@) =~= pool_of(before).remove(keys.last()));
            }
            self.exclusive_files = exclusive_files;
            match popped {
                Some((_, file)) => Some(file),
                None => None,
            }
        } else {
            assert(pool_of(before) =~= Map::<Seq<u8>, ExclusiveFileView>::empty());
            handle.get_exclusive_file()
        }
    }

    /// Stages the value that `value` has written as the value of `key`,
    /// and takes the value's file into the batch, where it stays until
    /// the commit. Fails with [`Error::FileHeldTwice`], and stages
    /// nothing, where the batch holds a file of the same identity already.
    pub fn stage_write(&mut self, key: Vec<u8>, value: ValueWriter) -> (staged: Result<(), Error>)
        ensures
            !old(self).held().contains_key(value.file().id) ==> {
                &&& staged is Ok
                &&& final(self).held() == old(self).held().insert(value.file().id, value.file())
                &&& final(self).pending() == old(self).pending().push(
                    PendingWriteView {
                        key: key@,
                        location: Location {
                            file_id: value.file().id,
                            offset: value.start(),
                            length: value.spec_value_length() as u64,
                        },
                    },
                )
            },
            old(self).held().contains_key(value.file().id) ==> {
                &&& staged == Err::<(), Error>(Error::FileHeldTwice)
                &&& final(self).held() == old(self).held()
                &&& final(self).pending() == old(self).pending()
            },
    {
        proof {
            use_type_invariant(&*self);
            use_type_invariant(&value);
        }
        let ghost before = self.exclusive_files@;
        let ghost writes = self.pending_writes@;
        let count = self.exclusive_files.len();
        if self.exclusive_files.get(value.file_id()).is_some() {
            assert(pool_of(before).contains_key(value.file().id));
            return Err(Error::FileHeldTwice);
        }
        assert(!pool_of(before).contains_key(value.file().id));
        let write = PendingWrite {
            key,
            value_file_offset: value.value_file_offset,
            value_length: value.value_length(),
            value_file_id: value.exclusive_file.id().clone(),
        };
        let ghost staged_write = write@;
        let mut pending_writes: Vec<PendingWrite> = Vec::new();
        core::mem::swap(&mut pending_writes, &mut self.pending_writes);
        pending_writes.push(write);
        assert(writes_of(pending_writes@) =~= writes_of(writes).push(staged_write));
        self.pending_writes = pending_writes;
        let id = value.exclusive_file.id().clone();
        let file = value.exclusive_file;
        let ghost file_view = file@;
        let mut exclusive_files: FileTable<ExclusiveFile> = FileTable::new();
        core::mem::swap(&mut exclusive_files, &mut self.exclusive_files);
        exclusive_files.insert(id, file);
        assert(pool_of(exclusive_files@) =~= pool_of(before).insert(file_view.id, file_view));
        self.exclusive_files = exclusive_files;
        Ok(())
    }

    /// Begins a value of the batch.
    pub fn new_value<'writer>(&'writer mut self) -> (value: BeginWriteValue<'writer>)
        ensures
            *value.batch == *old(self),
            *final(value.batch) == *final(self),
    {
        BeginWriteValue { batch: self }
    }

    /// The writes that are staged, in the order in which the commit makes
    /// them: for each, the manifest deletes the row that the key has, if
    /// it has one, and inserts the row of the new value.
    pub fn pending_writes(&self) -> (writes: &Vec<PendingWrite>)
        ensures
            writes_of(writes@) == self.pending(),
    {
        &self.pending_writes
    }

    /// Whether the batch can give its files back to the pool of `handle`:
    /// the pool holds none of them.
    pub fn can_flush(&self, handle: &Handle) -> (free: bool)
        ensures
            free == self.held().dom().disjoint(handle.pool().dom()),
    {
        proof {
            use_type_invariant(self);
        }
        let count = self.exclusive_files.len();
        let mut i: usize = 0;
        while i < count
            invariant
                i <= count,
                count == self.exclusive_files.keys().len(),
                self.exclusive_files.keys().no_duplicates(),
                forall|j: int| 0 <= j < i ==> !handle.pool().contains_key(self.exclusive_files.keys()[j]),
            decreases count - i,
        {
            if handle.has_exclusive_file(self.exclusive_files.key_at(i)) {
                proof {
                    let id = self.exclusive_files.keys()[i as int];
                    lemma_index_of_unique(self.exclusive_files.keys(), i as int);
                    assert(self.exclusive_files@.contains_key(id));
                    assert(self.held().contains_key(id));
                    assert(self.held().dom().contains(id) && handle.pool().dom().contains(id));
                }
                return false;
            }
            i += 1;
        }
        proof {
            assert forall|id: Seq<u8>|
                !(self.held().dom().contains(id) && handle.pool().dom().contains(id)) by {
                if self.held().dom().contains(id) {
                    assert(self.exclusive_files@.contains_key(id));
                    let j = self.exclusive_files.keys().index_of(id);
                    assert(self.exclusive_files.keys()[j] == id);
                }
            }
        }
        true
    }

    /// Ends the batch with what the manifest answered. `deleted` holds,
    /// for each staged write in order, the row that the key had before;
    /// `committed` is the outcome of the manifest's commit.
    ///
    /// Whatever the outcome, the batch gives its files back to the pool.
    /// After a commit that succeeded, the rows that the writes superseded
    /// are handed over to be reclaimed, with the count of the writes as
    /// the reward. After one that failed, nothing is reclaimed.
    pub fn commit(
        self,
        handle: &mut Handle,
        deleted: Vec<Option<Value>>,
        committed: Result<(), Error>,
    ) -> (work: Result<PostCommitWork<WriteCommitResult>, Error>)
        requires
            self.held().dom().disjoint(old(handle).pool().dom()),
        ensures
            final(handle).spec_dir() == old(handle).spec_dir(),
            final(handle).clone_cache() == old(handle).clone_cache(),
            final(handle).pool() == pool_with(old(handle).pool(), self.held()),
            committed matches Err(error) ==> work is Err && work->Err_0 == error,
            committed is Ok && deleted@.len() != self.pending().len() ==> work is Err
                && work->Err_0 == Error::UnexpectedEvent,
            committed is Ok && deleted@.len() == self.pending().len() ==> {
                &&& work is Ok
                &&& work->Ok_0.remaining() == superseded(deleted@)
                &&& work->Ok_0.spec_reward().spec_count() == self.pending().len()
            },
    {
        self.commit_inner(handle, deleted, committed)
    }

    fn commit_inner(
        self,
        handle: &mut Handle,
        deleted: Vec<Option<Value>>,
        committed: Result<(), Error>,
    ) -> (work: Result<PostCommitWork<WriteCommitResult>, Error>)
        requires
            self.held().dom().disjoint(old(handle).pool().dom()),
        ensures
            final(handle).spec_dir() == old(handle).spec_dir(),
            final(handle).clone_cache() == old(handle).clone_cache(),
            final(handle).pool() == pool_with(old(handle).pool(), self.held()),
            committed matches Err(error) ==> work is Err && work->Err_0 == error,
            committed is Ok && deleted@.len() != self.pending().len() ==> work is Err
                && work->Err_0 == Error::UnexpectedEvent,
            committed is Ok && deleted@.len() == self.pending().len() ==> {
                &&& work is Ok
                &&& work->Ok_0.remaining() == superseded(deleted@)
                &&& work->Ok_0.spec_reward().spec_count() == self.pending().len()
            },
    {
        let mut batch = self;
        let mut transaction = OwnedTx::new();
        let mut write_commit_res = WriteCommitResult { count: 0 };
        let count = batch.pending_writes.len();
        let mut i: usize = 0;
        assert(deleted@.take(0) =~= Seq::<Option<Value>>::empty());
        while i < deleted.len()
            invariant
                i <= deleted@.len(),
                transaction.deferred() == superseded(deleted@.take(i as int)),
            decreases deleted@.len() - i,
        {
            let answer = match &deleted[i] {
                Some(value) => Some(value.clone()),
                None => None,
            };
            proof {
                let upto = deleted@.take(i + 1);
                assert(upto.drop_last() =~= deleted@.take(i as int));
                assert(upto.last() == deleted@[i as int]);
            }
            transaction.delete_key(answer);
            i += 1;
        }
        assert(deleted@.take(deleted@.len() as int) =~= deleted@);
        write_commit_res.count = count;
        let outcome = match committed {
            Ok(_) => if deleted.len() == count {
                Ok(())
            } else {
                Err(Error::UnexpectedEvent)
            },
            Err(error) => Err(error),
        };
        let work = transaction.commit(outcome, write_commit_res);
        batch.flush_exclusive_files(handle);
        work
    }

    /// Gives the batch up without a commit. Its writes are dropped, and
    /// the files that it holds go back to the pool.
    pub fn abort(self, handle: &mut Handle)
        requires
            self.held().dom().disjoint(old(handle).pool().dom()),
        ensures
            final(handle).spec_dir() == old(handle).spec_dir(),
            final(handle).clone_cache() == old(handle).clone_cache(),
            final(handle).pool() == pool_with(old(handle).pool(), self.held()),
    {
        let mut batch = self;
        batch.flush_exclusive_files(handle);
    }

    /// Marks the end of the last commit in each file that the batch
    /// holds, and gives the files back to the pool.
    pub fn flush_exclusive_files(&mut self, handle: &mut Handle)
        requires
            old(self).held().dom().disjoint(old(handle).pool().dom()),
        ensures
            final(self).pending() == old(self).pending(),
            final(self).held() == Map::<Seq<u8>, ExclusiveFileView>::empty(),
            final(handle).spec_dir() == old(handle).spec_dir(),
            final(handle).clone_cache() == old(handle).clone_cache(),
            final(handle).pool() == pool_with(old(handle).pool(), old(self).held()),
    {
        proof {
            use_type_invariant(&*self);
        }
        let ghost pool = handle.pool();
        let ghost held = self.held();
        let mut files: FileTable<ExclusiveFile> = FileTable::new();
        core::mem::swap(&mut files, &mut self.exclusive_files);
        assert(self.held() =~= Map::<Seq<u8>, ExclusiveFileView>::empty());
        let mut left = files.len();
        assert(handle.pool() =~= pool_with(pool, held.remove_keys(pool_of(files@).dom())));
        while left > 0
            invariant
                left == files.keys().len(),
                left == files.values().len(),
                files.keys().no_duplicates(),
                files_keyed(files.keys(), files.values()),
                held.dom().disjoint(pool.dom()),
                forall|id: Seq<u8>| #[trigger]
                    files@.contains_key(id) ==> held.contains_key(id) && held[id] == files@[id]@,
                handle.spec_dir() == old(handle).spec_dir(),
                handle.clone_cache() == old(handle).clone_cache(),
                handle.pool() == pool_with(pool, held.remove_keys(pool_of(files@).dom())),
            decreases left,
        {
            let ghost before = files@;
            let ghost keys = files.keys();
            let popped = files.pop();
            proof {
                lemma_index_of_unique(keys, keys.len() - 1);
            }
            match popped {
                Some((_, mut file)) => {
                    let ghost view = file@;
                    assert(pool_of(before).contains_key(view.id) && pool_of(before)[view.id]
                        == view);
                    assert(before.contains_key(view.id) && before[view.id]@ == view);
                    assert(held.contains_key(view.id) && held[view.id] == view);
                    assert(!pool.contains_key(view.id)) by {
                        assert(held.dom().contains(view.id));
                    }
                    file.committed();
                    handle.release(file);
                    assert(pool_of(files@) =~= pool_of(before).remove(view.id));
                    assert(handle.pool() =~= pool_with(
                        pool,
                        held.remove_keys(pool_of(files@).dom()),
                    ));
                },
                None => {},
            }
            left = files.len();
        }
        assert(pool_of(files@).dom() =~= Set::<Seq<u8>>::empty()) by {
            assert forall|id: Seq<u8>| !pool_of(files@).dom().contains(id) by {
                if files@.contains_key(id) {
                    let j = files.keys().index_of(id);
                    assert(files.keys()[j] == id);
                }
            }
        }
        assert(held.remove_keys(Set::<Seq<u8>>::empty()) =~= held);
    }
}

} // verus!
