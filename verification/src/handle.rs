//! The state that the users of one store directory share: the pool of
//! value files that are open for appending, and the cache of clones.

use vstd::prelude::*;
use crate::dir::Dir;
use crate::exclusive_file::{ExclusiveFile, ExclusiveFileView};
use crate::file_id::FileId;
use crate::snapshot::FileClone;
use crate::table::FileTable;

verus! {

/// A store directory with its pool of exclusive files and its cache of
/// clones.
///
/// The pool holds the value files that are open and locked and that no
/// writer uses right now. A file is in the pool or with one writer, never
/// both: taking it hands it out, and only its holder can put it back. The
/// cache holds, for each value file, the newest clone that a reader made.
#[derive(Debug)]
pub struct Handle {
    dir: Dir,
    exclusive_files: FileTable<ExclusiveFile>,
    clones: FileTable<FileClone>,
}

/// The files of a pool as contracts speak of them.
pub open spec fn pool_of(files: Map<Seq<u8>, ExclusiveFile>) -> Map<Seq<u8>, ExclusiveFileView> {
    files.map_values(|file: ExclusiveFile| file@)
}

/// Whether each file of a table stands under its own identity and holds no
/// byte of a commit that has not ended.
pub open spec fn files_settled(keys: Seq<Seq<u8>>, files: Seq<ExclusiveFile>) -> bool {
    forall|i: int|
        0 <= i < keys.len() && i < files.len() ==> (#[trigger] files[i])@.id == keys[i]
            && files[i]@.is_committed()
}

impl Handle {
    #[verifier::type_invariant]
    spec fn well_formed(self) -> bool {
        files_settled(self.exclusive_files.keys(), self.exclusive_files.values())
    }

    /// The store directory.
    pub closed spec fn spec_dir(self) -> Dir {
        self.dir
    }

    /// The files that are in the pool, by identity.
    pub closed spec fn pool(self) -> Map<Seq<u8>, ExclusiveFileView> {
        pool_of(self.exclusive_files@)
    }

    /// The clones that are in the cache, by the identity of the file that
    /// each is a clone of.
    pub closed spec fn clone_cache(self) -> Map<Seq<u8>, FileClone> {
        self.clones@
    }

    /// The shared state of the store in `dir`, with an empty pool and an
    /// empty cache.
    pub fn new(dir: Dir) -> (handle: Handle)
        ensures
            handle.spec_dir() == dir,
            handle.pool() == Map::<Seq<u8>, ExclusiveFileView>::empty(),
            handle.clone_cache() == Map::<Seq<u8>, FileClone>::empty(),
    {
        let handle = Handle { dir, exclusive_files: FileTable::new(), clones: FileTable::new() };
        assert(handle.pool() =~= Map::<Seq<u8>, ExclusiveFileView>::empty());
        handle
    }

    /// The store directory.
    pub fn dir(&self) -> (dir: &Dir)
        ensures
            *dir == self.spec_dir(),
    {
        &self.dir
    }

    /// The block size of the store's file system.
    pub fn block_size(&self) -> (block_size: u64)
        ensures
            block_size == self.spec_dir().spec_block_size(),
            block_size > 0,
    {
        self.dir.block_size()
    }

    /// Whether the pool holds the file `id`.
    pub fn has_exclusive_file(&self, id: &FileId) -> (held: bool)
        ensures
            held == self.pool().contains_key(id@),
    {
        self.exclusive_files.get(id).is_some()
    }

    /// Takes a file out of the pool, if the pool has one. The file is the
    /// taker's alone until it is released.
    pub fn get_exclusive_file(&mut self) -> (taken: Option<ExclusiveFile>)
        ensures
            final(self).spec_dir() == old(self).spec_dir(),
            final(self).clone_cache() == old(self).clone_cache(),
            taken is None <==> old(self).pool() == Map::<Seq<u8>, ExclusiveFileView>::empty(),
            taken is None ==> final(self).pool() == old(self).pool(),
            taken matches Some(file) ==> {
                &&& old(self).pool().contains_key(file@.id)
                &&& old(self).pool()[file@.id] == file@
                &&& file@.is_committed()
                &&& final(self).pool() == old(self).pool().remove(file@.id)
                &&& !final(self).pool().contains_key(file@.id)
            },
    {
        proof {
            use_type_invariant(&*self);
        }
        let ghost keys = self.exclusive_files.keys();
        let ghost files = self.exclusive_files.values();
        let ghost before = self.exclusive_files@;
        let count = self.exclusive_files.len();
        let mut exclusive_files: FileTable<ExclusiveFile> = FileTable::new();
        core::mem::swap(&mut exclusive_files, &mut self.exclusive_files);
        let popped = exclusive_files.pop();
        proof {
            if count > 0 {
                crate::table::lemma_index_of_unique(keys, keys.len() - 1);
                assert(before.contains_key(keys.last()));
                assert(pool_of(before).contains_key(keys.last()));
                assert(pool_of(exclusive_files@) =~= pool_of(before).remove(keys.last()));
            } else {
                assert(pool_of(before) =~= Map::<Seq<u8>, ExclusiveFileView>::empty());
            }
        }
        self.exclusive_files = exclusive_files;
        match popped {
            Some((_, file)) => Some(file),
            None => None,
        }
    }

    /// Puts a file back into the pool. Its last commit has ended, and the
    /// pool does not hold a file of the same identity already.
    pub fn release(&mut self, file: ExclusiveFile)
        requires
            file@.is_committed(),
            !old(self).pool().contains_key(file@.id),
        ensures
            final(self).spec_dir() == old(self).spec_dir(),
            final(self).clone_cache() == old(self).clone_cache(),
            final(self).pool() == old(self).pool().insert(file@.id, file@),
    {
        proof {
            use_type_invariant(&*self);
        }
        let ghost before = self.exclusive_files@;
        let ghost view = file@;
        let count = self.exclusive_files.len();
        let id = file.id().clone();
        let mut exclusive_files: FileTable<ExclusiveFile> = FileTable::new();
        core::mem::swap(&mut exclusive_files, &mut self.exclusive_files);
        assert(!exclusive_files.keys().contains(id@)) by {
            if exclusive_files.keys().contains(id@) {
                assert(before.contains_key(id@));
                assert(pool_of(before).contains_key(id@));
            }
        }
        exclusive_files.insert(id, file);
        assert(pool_of(exclusive_files@) =~= pool_of(before).insert(view.id, view));
        self.exclusive_files = exclusive_files;
    }

    /// The clone of the file `id` that the cache holds, if it holds one of
    /// at least `min_len` bytes. A shorter clone was made before the file
    /// grew to that length, and does not serve.
    pub fn cached_clone(&self, id: &FileId, min_len: u64) -> (cached: Option<FileClone>)
        ensures
            cached == cached_clone_spec(self.clone_cache(), id@, min_len),
    {
        match self.clones.get(id) {
            Some(clone) => if clone.len >= min_len {
                Some(*clone)
            } else {
                None
            },
            None => None,
        }
    }

    /// Lets the cache hold `clone` for the file `id`, in place of any clone
    /// of that file that it held before.
    pub fn cache_clone(&mut self, id: FileId, clone: FileClone)
        ensures
            final(self).spec_dir() == old(self).spec_dir(),
            final(self).pool() == old(self).pool(),
            final(self).clone_cache() == old(self).clone_cache().insert(id@, clone),
    {
        proof {
            use_type_invariant(&*self);
        }
        let mut clones: FileTable<FileClone> = FileTable::new();
        core::mem::swap(&mut clones, &mut self.clones);
        clones.insert(id, clone);
        self.clones = clones;
    }
}

/// The clone of the file `id` that `cache` holds, if it holds one of at
/// least `min_len` bytes.
pub open spec fn cached_clone_spec(cache: Map<Seq<u8>, FileClone>, id: Seq<u8>, min_len: u64) -> Option<
    FileClone,
> {
    if cache.contains_key(id) && cache[id].len >= min_len {
        Some(cache[id])
    } else {
        None
    }
}

/// No file is handed out twice: once a file was taken from a pool, a
/// second taking from what is left yields another file.
pub proof fn law_pool_hands_out_once(
    pool: Map<Seq<u8>, ExclusiveFileView>,
    first: Seq<u8>,
    second: Seq<u8>,
)
    requires
        pool.contains_key(first),
        pool.remove(first).contains_key(second),
    ensures
        first != second,
        pool.contains_key(second),
{
}

} // verus!
