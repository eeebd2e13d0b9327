//! The directory of a store.

use vstd::prelude::*;
use std::path::PathBuf;

verus! {

/// The standard library's `PathBuf`. The library carries paths and never
/// looks into them.
#[verifier::external_type_specification]
#[verifier::external_body]
pub struct ExPathBuf(PathBuf);

/// The block size that a store assumes of its file system.
pub const DEFAULT_BLOCK_SIZE: u64 = 4096;

/// The directory that holds a store's manifest, value files and snapshot
/// directories, with the block size of its file system.
#[derive(Debug)]
pub struct Dir {
    path_buf: PathBuf,
    block_size: u64,
}

impl Dir {
    #[verifier::type_invariant]
    spec fn well_formed(self) -> bool {
        self.block_size > 0
    }

    /// The path of the directory.
    pub closed spec fn spec_path(self) -> PathBuf {
        self.path_buf
    }

    /// The block size of the directory's file system.
    pub closed spec fn spec_block_size(self) -> u64 {
        self.block_size
    }

    /// The store directory at `path_buf`, which the caller has created.
    pub fn new(path_buf: PathBuf) -> (dir: Dir)
        ensures
            dir.spec_path() == path_buf,
            dir.spec_block_size() == DEFAULT_BLOCK_SIZE,
    {
        Dir { path_buf, block_size: DEFAULT_BLOCK_SIZE }
    }

    /// The path of the directory.
    pub fn path(&self) -> (path: &PathBuf)
        ensures
            *path == self.spec_path(),
    {
        &self.path_buf
    }

    /// The block size of the directory's file system.
    pub fn block_size(&self) -> (block_size: u64)
        ensures
            block_size == self.spec_block_size(),
            block_size > 0,
    {
        proof {
            use_type_invariant(self);
        }
        self.block_size
    }
}

} // verus!
