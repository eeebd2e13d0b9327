//! What the operating system reports of files.

use vstd::prelude::*;
use crate::error::Error;

verus! {

/// The size of the blocks in which a file system reports what a file
/// occupies.
pub const ALLOCATION_BLOCK_SIZE: u64 = 512;

/// The bytes that a file occupies on disk, from the number of blocks that
/// the file system reports for it. Fails with [`Error::Conversion`] where
/// that is more than a `u64` can say.
pub fn path_disk_allocation(blocks: u64) -> (bytes: Result<u64, Error>)
    ensures
        blocks * ALLOCATION_BLOCK_SIZE <= u64::MAX ==> bytes == Ok::<u64, Error>(
            (blocks * ALLOCATION_BLOCK_SIZE) as u64,
        ),
        blocks * ALLOCATION_BLOCK_SIZE > u64::MAX ==> bytes == Err::<u64, Error>(
            Error::Conversion,
        ),
{
    if blocks > u64::MAX / ALLOCATION_BLOCK_SIZE {
        Err(Error::Conversion)
    } else {
        Ok(blocks * ALLOCATION_BLOCK_SIZE)
    }
}

} // verus!
