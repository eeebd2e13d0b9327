//! Snapshots: the clones of value files that a reader's values are read from.

use vstd::prelude::*;
use vstd::slice::slice_subrange;
use crate::error::{Error, IoErrorKind};
use crate::file_id::FileId;
use crate::table::FileTable;
use crate::value::Value;

verus! {

/// A copy-on-write clone of a value file, which every value of the file
/// that a snapshot resolves is read from. `token` is the caller's name for
/// the open clone; `len` is the length that the clone had when it was made.
#[derive(Debug, Clone, Copy, PartialEq, Eq, Structural)]
pub struct FileClone {
    pub token: u64,
    pub len: u64,
}

/// The bytes of `clone` that hold a value of `length` bytes at `offset`.
pub open spec fn window(clone: Seq<u8>, offset: int, length: int) -> Seq<u8> {
    clone.subrange(offset, offset + length)
}

/// How many bytes a read at `pos` copies out of `source_len` bytes into a
/// buffer of `buf_len` bytes.
pub open spec fn read_at_count(source_len: int, pos: int, buf_len: int) -> int {
    if pos >= source_len {
        0
    } else if buf_len <= source_len - pos {
        buf_len
    } else {
        source_len - pos
    }
}

/// The buffer after a read at `pos` out of `source`: the bytes that were
/// read, and behind them what the buffer held before.
pub open spec fn read_at_buffer(source: Seq<u8>, pos: int, buf: Seq<u8>) -> Seq<u8> {
    let count = read_at_count(source.len() as int, pos, buf.len() as int);
    source.subrange(pos, pos + count) + buf.subrange(count, buf.len() as int)
}

/// Calls positioned-io's `ReadAt::read_at` on a byte slice. As the crate's
/// source has it, the call never fails: it copies the bytes of `source`
/// from `pos` on to the front of `buf`, as many as `source` has there and
/// `buf` takes, leaves the rest of `buf` alone, and returns their number.
#[verifier::external_body]
fn slice_read_at(source: &[u8], pos: u64, buf: &mut [u8]) -> (count: Result<usize, Error>)
    ensures
        count == Ok::<usize, Error>(
            read_at_count(source@.len() as int, pos as int, old(buf)@.len() as int) as usize,
        ),
        final(buf)@ == read_at_buffer(source@, pos as int, old(buf)@),
{
    positioned_io::ReadAt::read_at(&source, pos, buf).map_err(|_| Error::Io(IoErrorKind::Other))
}

/// The clones of the value files that one reader resolved values in. What a
/// snapshot holds does not change: later writes and reclaimed space in the
/// value files do not reach the clones.
#[derive(Debug)]
pub struct Snapshot {
    file_clones: FileTable<FileClone>,
}

impl View for Snapshot {
    type V = Map<Seq<u8>, FileClone>;

    closed spec fn view(&self) -> Map<Seq<u8>, FileClone> {
        self.file_clones@
    }
}

impl Snapshot {
    /// The snapshot that reads each file from the clone that `file_clones`
    /// holds for it.
    pub fn new(file_clones: FileTable<FileClone>) -> (snapshot: Snapshot)
        ensures
            snapshot@ == file_clones@,
    {
        Snapshot { file_clones }
    }

    /// The clone that the snapshot reads the file `id` from.
    pub fn file_clone(&self, id: &FileId) -> (clone: Option<FileClone>)
        ensures
            clone is Some <==> self@.contains_key(id@),
            clone matches Some(held) ==> held == self@[id@],
    {
        match self.file_clones.get(id) {
            Some(held) => Some(*held),
            None => None,
        }
    }

    /// Binds `value` to the clone of its file. The value has to be one that
    /// the snapshot's reader resolved: the snapshot has a clone of its file.
    pub fn value(&self, value: Value) -> (bound: SnapshotValue)
        requires
            self@.contains_key(value@.file_id),
        ensures
            bound.spec_value()@ == value@,
            bound.spec_cloned_file() == self@[value@.file_id],
    {
        let cloned_file = self.file_clone(value.file_id()).unwrap();
        SnapshotValue { value, cloned_file }
    }
}

/// A value together with the clone that it is read from.
#[derive(Debug)]
pub struct SnapshotValue {
    value: Value,
    cloned_file: FileClone,
}

impl SnapshotValue {
    /// The row of the value.
    pub closed spec fn spec_value(self) -> Value {
        self.value
    }

    /// The clone that the value is read from.
    pub closed spec fn spec_cloned_file(self) -> FileClone {
        self.cloned_file
    }

    /// Whether the value's bytes can be addressed in memory: its offset, its
    /// length and its end fit a `usize`.
    pub open spec fn addressable(self) -> bool {
        self.spec_value()@.file_offset + self.spec_value()@.length <= usize::MAX
    }

    /// The row of the value.
    pub fn value(&self) -> (value: &Value)
        ensures
            *value == self.spec_value(),
    {
        &self.value
    }

    /// The clone that the value is read from.
    pub fn file_clone(&self) -> (clone: FileClone)
        ensures
            clone == self.spec_cloned_file(),
    {
        self.cloned_file
    }

    /// Where the value starts and ends in the mapped clone. Fails with
    /// [`Error::Conversion`] where the value cannot be addressed.
    pub fn window(&self) -> (bounds: Result<(usize, usize), Error>)
        ensures
            self.addressable() ==> bounds == Ok::<(usize, usize), Error>(
                (
                    self.spec_value()@.file_offset as usize,
                    (self.spec_value()@.file_offset + self.spec_value()@.length) as usize,
                ),
            ),
            !self.addressable() ==> bounds == Err::<(usize, usize), Error>(Error::Conversion),
    {
        let start = crate::convert::to_usize_io(self.value.file_offset())?;
        let length = crate::convert::to_usize_io(self.value.length())?;
        if length > usize::MAX - start {
            Err(crate::convert::make_to_usize_io_error())
        } else {
            Ok((start, start + length))
        }
    }

    /// The value's bytes within `clone`, the mapped content of the clone.
    /// Fails with [`Error::Conversion`] where the value cannot be addressed
    /// or does not lie within `clone`.
    pub fn bytes<'a>(&self, clone: &'a [u8]) -> (bytes: Result<&'a [u8], Error>)
        ensures
            self.addressable() && self.spec_value()@.location().end() <= clone@.len() ==> bytes
                is Ok && bytes->Ok_0@ == window(
                clone@,
                self.spec_value()@.file_offset as int,
                self.spec_value()@.length as int,
            ),
            !(self.addressable() && self.spec_value()@.location().end() <= clone@.len()) ==> bytes
                == Err::<&[u8], Error>(Error::Conversion),
    {
        let (start, end) = self.window()?;
        if end > clone.len() {
            Err(crate::convert::make_to_usize_io_error())
        } else {
            Ok(slice_subrange(clone, start, end))
        }
    }

    /// Hands the value's bytes within `clone`, the mapped content of the
    /// clone, to `f`, and gives back what `f` makes of them. Fails with
    /// [`Error::Conversion`], without calling `f`, where the value cannot
    /// be addressed or does not lie within `clone`.
    pub fn view<R, F: FnOnce(&[u8]) -> R>(&self, clone: &[u8], f: F) -> (viewed: Result<R, Error>)
        requires
            forall|bytes: &[u8]|
                bytes@ == window(
                    clone@,
                    self.spec_value()@.file_offset as int,
                    self.spec_value()@.length as int,
                ) ==> #[trigger] f.requires((bytes,)),
        ensures
            self.addressable() && self.spec_value()@.location().end() <= clone@.len() ==> viewed
                is Ok && exists|bytes: &[u8]|
                bytes@ == window(
                    clone@,
                    self.spec_value()@.file_offset as int,
                    self.spec_value()@.length as int,
                ) && #[trigger] f.ensures((bytes,), viewed->Ok_0),
            !(self.addressable() && self.spec_value()@.location().end() <= clone@.len())
                ==> viewed is Err && viewed->Err_0 == Error::Conversion,
    {
        match self.bytes(clone) {
            Ok(bytes) => {
                let made = f(bytes);
                let viewed: Result<R, Error> = Ok(made);
                assert(bytes@ == window(
                    clone@,
                    self.spec_value()@.file_offset as int,
                    self.spec_value()@.length as int,
                ) && f.ensures((bytes,), viewed->Ok_0));
                viewed
            },
            Err(error) => Err(error),
        }
    }

    /// Reads the value from `pos`, an offset within the value, into `buf`,
    /// and says how many bytes were read: as many as `buf` takes and the
    /// value has from `pos` on. `clone` is the mapped content of the clone.
    /// Fails with [`Error::Conversion`], and leaves `buf` as it is, where
    /// the value cannot be addressed or does not lie within `clone`.
    pub fn read_at(&self, clone: &[u8], pos: u64, buf: &mut [u8]) -> (count: Result<usize, Error>)
        ensures
            self.addressable() && self.spec_value()@.location().end() <= clone@.len() ==> {
                let value = window(
                    clone@,
                    self.spec_value()@.file_offset as int,
                    self.spec_value()@.length as int,
                );
                &&& count == Ok::<usize, Error>(
                    read_at_count(value.len() as int, pos as int, old(buf)@.len() as int) as usize,
                )
                &&& final(buf)@ == read_at_buffer(value, pos as int, old(buf)@)
            },
            !(self.addressable() && self.spec_value()@.location().end() <= clone@.len()) ==> count
                == Err::<usize, Error>(Error::Conversion) && final(buf)@ == old(buf)@,
    {
        match self.bytes(clone) {
            Ok(bytes) => slice_read_at(bytes, pos, buf),
            Err(error) => Err(error),
        }
    }

    /// Reads the value from its start into `buf`, straight from the
    /// content of the clone, and says how many bytes were read: as many as
    /// `buf` takes, the value has, and the clone holds from the value's
    /// start on.
    pub fn read(&self, clone: &[u8], buf: &mut [u8]) -> (count: Result<usize, Error>)
        ensures
            ({
                let asked = if old(buf)@.len() <= self.spec_value()@.length {
                    old(buf)@.len() as int
                } else {
                    self.spec_value()@.length as int
                };
                let got = read_at_count(
                    clone@.len() as int,
                    self.spec_value()@.file_offset as int,
                    asked,
                );
                &&& count == Ok::<usize, Error>(got as usize)
                &&& final(buf)@ == read_at_buffer(
                    clone@,
                    self.spec_value()@.file_offset as int,
                    old(buf)@.subrange(0, asked),
                ) + old(buf)@.subrange(asked, old(buf)@.len() as int)
            }),
    {
        let asked = self.read_len(buf.len());
        let (head, _) = buf.split_at_mut(asked);
        slice_read_at(clone, self.value.file_offset(), head)
    }

    /// How many bytes a read into a buffer of `buf_len` bytes asks the
    /// clone for: no more than the value has.
    pub fn read_len(&self, buf_len: usize) -> (len: usize)
        ensures
            len == if buf_len <= self.spec_value()@.length {
                buf_len as int
            } else {
                self.spec_value()@.length as int
            },
    {
        let length = self.value.length();
        if buf_len as u64 <= length {
            buf_len
        } else {
            length as usize
        }
    }
}

} // verus!
