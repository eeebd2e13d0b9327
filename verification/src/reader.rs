//! Reading values: resolving keys in one read transaction, and cloning
//! the value files that the resolved values lie in.

use vstd::prelude::*;
use crate::error::Error;
use crate::file_id::FileId;
use crate::handle::{cached_clone_spec, Handle};
use crate::ownedtx::OwnedTx;
use crate::snapshot::{FileClone, Snapshot};
use crate::table::{lemma_files_by_index, lemma_index_of_unique, table_of, FileTable};
use crate::prefix::{items_of, list_items};
use crate::value::{Item, ItemView, Value, ValueView};

verus! {

/// The lengths that a reader needs of its files, after it has resolved
/// `value`: the file of the value has to reach to the value's end, and as
/// far as it had to reach before.
pub open spec fn record_value(files: Map<Seq<u8>, u64>, value: ValueView) -> Map<Seq<u8>, u64> {
    let end = (value.file_offset + value.length) as u64;
    if files.contains_key(value.file_id) && files[value.file_id] >= end {
        files
    } else {
        files.insert(value.file_id, end)
    }
}

/// The files of a reader, in order, after it has resolved `value`: a file
/// that it comes upon for the first time comes last.
pub open spec fn record_file_id(file_ids: Seq<Seq<u8>>, value: ValueView) -> Seq<Seq<u8>> {
    if file_ids.contains(value.file_id) {
        file_ids
    } else {
        file_ids.push(value.file_id)
    }
}

/// The lengths that a reader needs of its files, in the files' order,
/// after it has resolved `value`.
pub open spec fn record_min_len(file_ids: Seq<Seq<u8>>, min_lens: Seq<u64>, value: ValueView) -> Seq<
    u64,
> {
    let end = (value.file_offset + value.length) as u64;
    if !file_ids.contains(value.file_id) {
        min_lens.push(end)
    } else if min_lens[file_ids.index_of(value.file_id)] >= end {
        min_lens
    } else {
        min_lens.update(file_ids.index_of(value.file_id), end)
    }
}

/// The clone that a snapshot reads the file `id` from, of which it needs
/// `min_len` bytes: the cached clone if that is long enough, and else the
/// clone that was made for the snapshot, which has to be there and has to
/// be long enough.
pub open spec fn chosen_clone(
    cache: Map<Seq<u8>, FileClone>,
    made: Map<Seq<u8>, FileClone>,
    id: Seq<u8>,
    min_len: u64,
) -> Result<FileClone, Error> {
    match cached_clone_spec(cache, id, min_len) {
        Some(cached) => Ok(cached),
        None => if !made.contains_key(id) {
            Err(Error::CloneMissing)
        } else if made[id].len < min_len {
            Err(Error::CloneTooShort)
        } else {
            Ok(made[id])
        },
    }
}

/// Whether `error` is the failure that stops a reader from getting its
/// clones: it is why the first file in the order of `ids` that has no
/// clone to be read from has none.
pub open spec fn first_lacking(
    cache: Map<Seq<u8>, FileClone>,
    made: Map<Seq<u8>, FileClone>,
    ids: Seq<Seq<u8>>,
    min_lens: Seq<u64>,
    error: Error,
) -> bool {
    exists|i: int|
        0 <= i < ids.len() && #[trigger] chosen_clone(cache, made, ids[i], min_lens[i]) == Err::<
            FileClone,
            Error,
        >(error) && forall|j: int|
            0 <= j < i ==> #[trigger] chosen_clone(cache, made, ids[j], min_lens[j]) is Ok
}

/// The cache after a reader has put in the clones that were made for its
/// files: each file of which the cache had no clone that was long enough
/// has its new clone in the cache.
pub open spec fn cache_with(
    cache: Map<Seq<u8>, FileClone>,
    made: Map<Seq<u8>, FileClone>,
    files: Map<Seq<u8>, u64>,
) -> Map<Seq<u8>, FileClone> {
    Map::new(
        |id: Seq<u8>| cache.contains_key(id) || files.contains_key(id),
        |id: Seq<u8>|
            if files.contains_key(id) && cached_clone_spec(cache, id, files[id]) is None {
                made[id]
            } else {
                cache[id]
            },
    )
}

/// Whether the clones `clones` serve a reader that needs the lengths
/// `files` of its files: there is a clone of each file, and it is long
/// enough.
pub open spec fn clones_cover(clones: Map<Seq<u8>, FileClone>, files: Map<Seq<u8>, u64>) -> bool {
    forall|id: Seq<u8>| #[trigger]
        files.contains_key(id) ==> clones.contains_key(id) && clones[id].len >= files[id]
}

/// One read transaction: the keys that it resolves are read from one
/// snapshot. The reader keeps, for each value file that a resolved value
/// lies in, the length that the file's clone has to have.
#[derive(Debug)]
pub struct Reader {
    files: FileTable<u64>,
}

impl Reader {
    /// The length that the reader needs of each file that it has resolved
    /// a value in.
    pub open spec fn files(self) -> Map<Seq<u8>, u64> {
        table_of(self.file_ids(), self.min_lens())
    }

    /// The files that the reader has resolved a value in, in the order in
    /// which it came upon them. No file occurs twice.
    pub closed spec fn file_ids(self) -> Seq<Seq<u8>> {
        self.files.keys()
    }

    /// The length that the reader needs of each of [`Reader::file_ids`].
    pub closed spec fn min_lens(self) -> Seq<u64> {
        self.files.values()
    }

    /// A reader that has resolved nothing yet.
    pub fn new() -> (reader: Reader)
        ensures
            reader.files() == Map::<Seq<u8>, u64>::empty(),
            reader.file_ids() == Seq::<Seq<u8>>::empty(),
            reader.min_lens() == Seq::<u64>::empty(),
    {
        Reader { files: FileTable::new() }
    }

    /// Takes note of what the manifest answered when it was asked for a
    /// key, and marked the key's row as used. A row that was found is
    /// handed on, and its file has to reach to the value's end in the
    /// snapshot. A key without a row is no failure: the answer is `None`.
    /// Any other failure of the manifest is passed on. A row whose end is
    /// no offset fails with [`Error::Conversion`].
    pub fn add(&mut self, looked_up: Result<Value, Error>) -> (found: Result<Option<Value>, Error>)
        ensures
            final(self).file_ids().no_duplicates(),
            final(self).file_ids().len() == final(self).min_lens().len(),
            looked_up is Ok && looked_up->Ok_0@.location().end() <= u64::MAX ==> {
                &&& found is Ok
                &&& found->Ok_0 is Some
                &&& found->Ok_0->0@ == looked_up->Ok_0@
                &&& final(self).files() == record_value(old(self).files(), looked_up->Ok_0@)
                &&& final(self).file_ids() == record_file_id(
                    old(self).file_ids(),
                    looked_up->Ok_0@,
                )
                &&& final(self).min_lens() == record_min_len(
                    old(self).file_ids(),
                    old(self).min_lens(),
                    looked_up->Ok_0@,
                )
            },
            looked_up is Ok && looked_up->Ok_0@.location().end() > u64::MAX ==> {
                &&& found is Err
                &&& found->Err_0 == Error::Conversion
                &&& final(self).file_ids() == old(self).file_ids()
                &&& final(self).min_lens() == old(self).min_lens()
            },
            looked_up is Err && looked_up->Err_0 == Error::NoSuchKey ==> {
                &&& found is Ok
                &&& found->Ok_0 is None
                &&& final(self).file_ids() == old(self).file_ids()
                &&& final(self).min_lens() == old(self).min_lens()
            },
            looked_up is Err && looked_up->Err_0 != Error::NoSuchKey ==> {
                &&& found is Err
                &&& found->Err_0 == looked_up->Err_0
                &&& final(self).file_ids() == old(self).file_ids()
                &&& final(self).min_lens() == old(self).min_lens()
            },
    {
        // `len` tells that no file occurs twice in the table.
        let _ = self.files.len();
        match looked_up {
            Ok(value) => {
                match value.end_offset() {
                    Ok(value_end) => {
                        let seen = match self.files.get(value.file_id()) {
                            Some(needed) => *needed >= value_end,
                            None => false,
                        };
                        if !seen {
                            self.files.insert(value.file_id().clone(), value_end);
                        }
                        let _ = self.files.len();
                        Ok(Some(value))
                    },
                    Err(error) => Err(error),
                }
            },
            Err(Error::NoSuchKey) => Ok(None),
            Err(error) => Err(error),
        }
    }

    /// Reads the answer of the manifest to a scan, within the reader's
    /// transaction, for the keys that start with `prefix`: a failure is
    /// passed on, and of the items of a scan those are kept whose keys
    /// start with `prefix`, in the order of the scan.
    pub fn list_items(&self, prefix: &[u8], scanned: Result<Vec<Item>, Error>) -> (items: Result<
        Vec<Item>,
        Error,
    >)
        ensures
            scanned matches Err(error) ==> items is Err && items->Err_0 == error,
            scanned matches Ok(found) ==> items is Ok && items_of(items->Ok_0@) == items_of(
                found@,
            ).filter(|item: ItemView| prefix@.is_prefix_of(item.key)),
    {
        list_items(prefix, scanned)
    }

    /// The clone that the snapshot of a reader reads the file `file_id`
    /// from, of which the reader needs `min_len` bytes. The cached clone
    /// serves if it is long enough. If not, the clone that was made for
    /// the reader takes its place in the cache, so that no reader is
    /// served a clone that ends before its values do.
    pub fn get_file_clone(
        file_id: &FileId,
        handle: &mut Handle,
        made: &FileTable<FileClone>,
        min_len: u64,
    ) -> (clone: Result<FileClone, Error>)
        ensures
            final(handle).spec_dir() == old(handle).spec_dir(),
            final(handle).pool() == old(handle).pool(),
            clone == chosen_clone(old(handle).clone_cache(), made@, file_id@, min_len),
            final(handle).clone_cache() == if clone is Ok && cached_clone_spec(
                old(handle).clone_cache(),
                file_id@,
                min_len,
            ) is None {
                old(handle).clone_cache().insert(file_id@, made@[file_id@])
            } else {
                old(handle).clone_cache()
            },
    {
        match handle.cached_clone(file_id, min_len) {
            Some(cached) => Ok(cached),
            None => match made.get(file_id) {
                None => Err(Error::CloneMissing),
                Some(fresh) => if fresh.len < min_len {
                    Err(Error::CloneTooShort)
                } else {
                    handle.cache_clone(file_id.clone(), *fresh);
                    Ok(*fresh)
                },
            },
        }
    }

    /// The files that a clone has to be made of before the reader can
    /// begin its snapshot: those of which the cache has no clone that is
    /// long enough, in the order of [`Reader::file_ids`].
    pub fn files_to_clone(&self, handle: &Handle) -> (ids: Vec<FileId>)
        ensures
            ids@.map_values(|id: FileId| id@) == self.file_ids().filter(
                |id: Seq<u8>|
                    cached_clone_spec(handle.clone_cache(), id, self.files()[id]) is None,
            ),
    {
        let ghost wanted = |id: Seq<u8>|
            cached_clone_spec(handle.clone_cache(), id, self.files()[id]) is None;
        let mut ids: Vec<FileId> = Vec::new();
        let count = self.files.len();
        let mut i: usize = 0;
        assert(self.file_ids().take(0) =~= Seq::<Seq<u8>>::empty());
        assert(ids@.map_values(|id: FileId| id@) =~= Seq::<Seq<u8>>::empty());
        while i < count
            invariant
                i <= count,
                count == self.files.keys().len(),
                count == self.files.values().len(),
                self.files.keys().no_duplicates(),
                wanted == |id: Seq<u8>|
                    cached_clone_spec(handle.clone_cache(), id, self.files()[id]) is None,
                ids@.map_values(|id: FileId| id@) == self.file_ids().take(i as int).filter(wanted),
            decreases count - i,
        {
            let id = self.files.key_at(i);
            let min_len = *self.files.value_at(i);
            proof {
                lemma_index_of_unique(self.files.keys(), i as int);
                let upto = self.file_ids().take(i + 1);
                assert(upto.drop_last() =~= self.file_ids().take(i as int));
                assert(upto.last() == self.file_ids()[i as int]);
                reveal(Seq::filter);
            }
            let ghost before = ids@.map_values(|id: FileId| id@);
            if handle.cached_clone(id, min_len).is_none() {
                ids.push(id.clone());
                assert(ids@.map_values(|id: FileId| id@) =~= before.push(id@));
            }
            i += 1;
        }
        assert(self.file_ids().take(count as int) =~= self.file_ids());
        ids
    }

    /// Gets the clone of each file that the reader has resolved a value
    /// in: out of the cache where the cached clone is long enough, and
    /// out of `made`, the clones that were made for this reader, where it
    /// is not. The new clones go into the cache.
    ///
    /// Fails, and leaves the cache as it was, if some file has neither:
    /// with [`Error::CloneMissing`] or [`Error::CloneTooShort`], as the
    /// first such file in the order of [`Reader::file_ids`] has it.
    pub fn clone_files(&self, handle: &mut Handle, made: &FileTable<FileClone>) -> (clones: Result<
        FileTable<FileClone>,
        Error,
    >)
        ensures
            final(handle).spec_dir() == old(handle).spec_dir(),
            final(handle).pool() == old(handle).pool(),
            clones is Ok <==> forall|id: Seq<u8>| #[trigger]
                self.files().contains_key(id) ==> chosen_clone(
                    old(handle).clone_cache(),
                    made@,
                    id,
                    self.files()[id],
                ) is Ok,
            clones matches Ok(table) ==> {
                &&& table.keys() == self.file_ids()
                &&& table@.dom() == self.files().dom()
                &&& forall|id: Seq<u8>| #[trigger]
                    self.files().contains_key(id) ==> Ok::<FileClone, Error>(table@[id])
                        == chosen_clone(old(handle).clone_cache(), made@, id, self.files()[id])
                &&& clones_cover(table@, self.files())
                &&& final(handle).clone_cache() == cache_with(
                    old(handle).clone_cache(),
                    made@,
                    self.files(),
                )
            },
            clones matches Err(error) ==> {
                &&& final(handle).clone_cache() == old(handle).clone_cache()
                &&& first_lacking(
                    old(handle).clone_cache(),
                    made@,
                    self.file_ids(),
                    self.min_lens(),
                    error,
                )
                &&& exists|id: Seq<u8>| #[trigger]
                    self.files().contains_key(id) && chosen_clone(
                        old(handle).clone_cache(),
                        made@,
                        id,
                        self.files()[id],
                    ) == Err::<FileClone, Error>(error)
            },
    {
        let ghost cache = handle.clone_cache();
        let count = self.files.len();
        let ghost keys = self.files.keys();
        let ghost mins = self.files.values();
        proof {
            lemma_files_by_index(keys, mins);
        }
        let mut i: usize = 0;
        while i < count
            invariant
                i <= count,
                count == keys.len(),
                count == mins.len(),
                keys == self.files.keys(),
                mins == self.files.values(),
                keys == self.file_ids(),
                mins == self.min_lens(),
                self.files() == table_of(keys, mins),
                keys.no_duplicates(),
                cache == handle.clone_cache(),
                handle.spec_dir() == old(handle).spec_dir(),
                handle.pool() == old(handle).pool(),
                forall|j: int|
                    0 <= j < keys.len() ==> #[trigger] table_of(keys, mins).contains_key(keys[j])
                        && table_of(keys, mins)[keys[j]] == mins[j],
                forall|j: int| 0 <= j < i ==> #[trigger] chosen_clone(cache, made@, keys[j], mins[j]) is Ok,
            decreases count - i,
        {
            let id = self.files.key_at(i);
            let min_len = *self.files.value_at(i);
            let lacking: Option<Error> = if handle.cached_clone(id, min_len).is_some() {
                None
            } else {
                match made.get(id) {
                    None => Some(Error::CloneMissing),
                    Some(fresh) => if fresh.len < min_len {
                        Some(Error::CloneTooShort)
                    } else {
                        None
                    },
                }
            };
            match lacking {
                Some(error) => {
                    proof {
                        assert(chosen_clone(cache, made@, keys[i as int], mins[i as int])
                            == Err::<FileClone, Error>(error));
                        assert(table_of(keys, mins).contains_key(keys[i as int]));
                    }
                    return Err(error);
                },
                None => {
                    assert(chosen_clone(cache, made@, keys[i as int], mins[i as int]) is Ok);
                },
            }
            i += 1;
        }
        proof {
            assert forall|id: Seq<u8>| #[trigger] self.files().contains_key(id) implies chosen_clone(
                cache,
                made@,
                id,
                self.files()[id],
            ) is Ok by {
                let j = keys.index_of(id);
                assert(keys[j] == id);
                assert(table_of(keys, mins).contains_key(keys[j]));
                assert(chosen_clone(cache, made@, keys[j], mins[j]) is Ok);
            }
        }
        let ghost wanted = cache_with(cache, made@, self.files());
        let mut table: FileTable<FileClone> = FileTable::new();
        let mut i: usize = 0;
        assert(keys.take(0) =~= Seq::<Seq<u8>>::empty());
        while i < count
            invariant
                i <= count,
                count == keys.len(),
                count == mins.len(),
                keys == self.files.keys(),
                mins == self.files.values(),
                self.files() == table_of(keys, mins),
                wanted == cache_with(cache, made@, self.files()),
                keys.no_duplicates(),
                forall|j: int|
                    0 <= j < keys.len() ==> #[trigger] table_of(keys, mins).contains_key(keys[j])
                        && table_of(keys, mins)[keys[j]] == mins[j],
                forall|j: int|
                    0 <= j < count ==> #[trigger] chosen_clone(cache, made@, keys[j], mins[j]) is Ok,
                handle.spec_dir() == old(handle).spec_dir(),
                handle.pool() == old(handle).pool(),
                table.keys() == keys.take(i as int),
                table.values().len() == i,
                forall|j: int|
                    0 <= j < i ==> Ok::<FileClone, Error>(#[trigger] table.values()[j])
                        == chosen_clone(cache, made@, keys[j], mins[j]),
                forall|id: Seq<u8>|
                    !keys.take(i as int).contains(id) ==> (#[trigger] handle.clone_cache().contains_key(
                        id,
                    ) <==> cache.contains_key(id)),
                forall|id: Seq<u8>|
                    !keys.take(i as int).contains(id) && #[trigger] cache.contains_key(id)
                        ==> handle.clone_cache()[id] == cache[id],
                forall|j: int|
                    0 <= j < i ==> handle.clone_cache().contains_key(#[trigger] keys[j])
                        && handle.clone_cache()[keys[j]] == wanted[keys[j]],
            decreases count - i,
        {
            let id = self.files.key_at(i);
            let min_len = *self.files.value_at(i);
            let ghost cache_before = handle.clone_cache();
            let ghost values_before = table.values();
            proof {
                assert(!keys.take(i as int).contains(id@)) by {
                    if keys.take(i as int).contains(id@) {
                        let j = keys.take(i as int).index_of(id@);
                        assert(keys.take(i as int)[j] == id@);
                        assert(keys[j] == keys[i as int]);
                    }
                }
                assert(table_of(keys, mins).contains_key(keys[i as int]));
                assert(chosen_clone(cache, made@, keys[i as int], mins[i as int]) is Ok);
                assert(cache_before.contains_key(id@) <==> cache.contains_key(id@));
                assert(cache.contains_key(id@) ==> cache_before[id@] == cache[id@]);
                assert(cached_clone_spec(cache_before, id@, min_len) == cached_clone_spec(
                    cache,
                    id@,
                    min_len,
                ));
            }
            let chosen = Reader::get_file_clone(id, handle, made, min_len);
            match chosen {
                Ok(clone) => {
                    table.insert(id.clone(), clone);
                },
                Err(_) => {},
            }
            proof {
                assert(table.keys() =~= keys.take(i + 1));
                assert(table.values() =~= values_before.push(chosen->Ok_0));
                assert(keys.take(i + 1)[i as int] == id@);
                assert forall|other: Seq<u8>| !keys.take(i + 1).contains(other) implies (
                #[trigger] handle.clone_cache().contains_key(other) <==> cache.contains_key(
                    other,
                )) by {
                    if keys.take(i as int).contains(other) {
                        let j = keys.take(i as int).index_of(other);
                        assert(keys.take(i + 1)[j] == other);
                    }
                }
                assert forall|other: Seq<u8>|
                    !keys.take(i + 1).contains(other) && #[trigger] cache.contains_key(
                        other,
                    ) implies handle.clone_cache()[other] == cache[other] by {
                    if keys.take(i as int).contains(other) {
                        let j = keys.take(i as int).index_of(other);
                        assert(keys.take(i + 1)[j] == other);
                    }
                }
                assert forall|j: int| 0 <= j < i + 1 implies handle.clone_cache().contains_key(
                    #[trigger] keys[j],
                ) && handle.clone_cache()[keys[j]] == wanted[keys[j]] by {
                    assert(table_of(keys, mins).contains_key(keys[j]));
                    if j < i {
                        assert(keys[j] != keys[i as int]);
                    }
                }
            }
            i += 1;
        }
        proof {
            assert(keys.take(count as int) =~= keys);
            assert forall|id: Seq<u8>| #[trigger] self.files().contains_key(id) implies Ok::<
                FileClone,
                Error,
            >(table@[id]) == chosen_clone(cache, made@, id, self.files()[id]) && table@.contains_key(id)
                && table@[id].len >= self.files()[id] by {
                let j = keys.index_of(id);
                assert(keys[j] == id);
                lemma_index_of_unique(keys, j);
                assert(table_of(keys, mins).contains_key(keys[j]));
                assert(Ok::<FileClone, Error>(table.values()[j]) == chosen_clone(
                    cache,
                    made@,
                    keys[j],
                    mins[j],
                ));
            }
            assert(table@.dom() =~= self.files().dom());
            assert forall|id: Seq<u8>|
                handle.clone_cache().contains_key(id) == #[trigger] wanted.contains_key(id) && (
                wanted.contains_key(id) ==> handle.clone_cache()[id] == wanted[id]) by {
                if keys.contains(id) {
                    let j = keys.index_of(id);
                    assert(keys[j] == id);
                    assert(table_of(keys, mins).contains_key(keys[j]));
                } else {
                    assert(!self.files().contains_key(id));
                }
            }
            assert(handle.clone_cache() =~= wanted);
        }
        Ok(table)
    }

    /// Ends the reader with a snapshot of the files that it has resolved
    /// values in. `made` holds the clones that were made for the reader,
    /// and `committed` is the outcome of the commit of the read
    /// transaction, which the caller makes once the clones are there.
    ///
    /// Fails as [`Reader::clone_files`] does if a clone is wanting, and
    /// else with the failure of the commit if it failed. The snapshot has
    /// a clone of each file, long enough for every value that the reader
    /// resolved in it.
    pub fn begin(
        self,
        handle: &mut Handle,
        made: &FileTable<FileClone>,
        committed: Result<(), Error>,
    ) -> (snapshot: Result<Snapshot, Error>)
        ensures
            final(handle).spec_dir() == old(handle).spec_dir(),
            final(handle).pool() == old(handle).pool(),
            snapshot is Ok <==> committed is Ok && forall|id: Seq<u8>| #[trigger]
                self.files().contains_key(id) ==> chosen_clone(
                    old(handle).clone_cache(),
                    made@,
                    id,
                    self.files()[id],
                ) is Ok,
            snapshot matches Ok(taken) ==> {
                &&& taken@.dom() == self.files().dom()
                &&& forall|id: Seq<u8>| #[trigger]
                    self.files().contains_key(id) ==> Ok::<FileClone, Error>(taken@[id])
                        == chosen_clone(old(handle).clone_cache(), made@, id, self.files()[id])
                &&& clones_cover(taken@, self.files())
            },
            (forall|id: Seq<u8>| #[trigger]
                self.files().contains_key(id) ==> chosen_clone(
                    old(handle).clone_cache(),
                    made@,
                    id,
                    self.files()[id],
                ) is Ok) ==> {
                &&& final(handle).clone_cache() == cache_with(
                    old(handle).clone_cache(),
                    made@,
                    self.files(),
                )
                &&& committed matches Err(error) ==> snapshot is Err && snapshot->Err_0 == error
            },
            !(forall|id: Seq<u8>| #[trigger]
                self.files().contains_key(id) ==> chosen_clone(
                    old(handle).clone_cache(),
                    made@,
                    id,
                    self.files()[id],
                ) is Ok) ==> {
                &&& final(handle).clone_cache() == old(handle).clone_cache()
                &&& snapshot is Err
                &&& first_lacking(
                    old(handle).clone_cache(),
                    made@,
                    self.file_ids(),
                    self.min_lens(),
                    snapshot->Err_0,
                )
                &&& exists|id: Seq<u8>| #[trigger]
                    self.files().contains_key(id) && chosen_clone(
                        old(handle).clone_cache(),
                        made@,
                        id,
                        self.files()[id],
                    ) == Err::<FileClone, Error>(snapshot->Err_0)
            },
    {
        let file_clones = match self.clone_files(handle, made) {
            Ok(file_clones) => file_clones,
            Err(error) => {
                return Err(error);
            },
        };
        let owned_tx = OwnedTx::new();
        let work = match owned_tx.commit(committed, ()) {
            Ok(work) => work,
            Err(error) => {
                return Err(error);
            },
        };
        match work.complete(Ok(())) {
            Ok(_) => Ok(Snapshot::new(file_clones)),
            Err(error) => Err(error),
        }
    }
}

} // verus!
