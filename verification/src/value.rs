//! The rows of the manifest.

use vstd::prelude::*;
use crate::error::Error;
use crate::file_id::{copy_bytes, FileId};
use crate::timestamp::{datetime_exists_at_millis, Timestamp};

verus! {

/// Where a value lies: in which file, from which offset, and how long.
pub struct Location {
    pub file_id: Seq<u8>,
    pub offset: u64,
    pub length: u64,
}

impl Location {
    /// The offset of the first byte behind the value.
    pub open spec fn end(self) -> int {
        self.offset + self.length
    }
}

/// A row of the manifest as contracts speak of it.
pub struct ValueView {
    pub file_id: Seq<u8>,
    pub file_offset: u64,
    pub length: u64,
    pub last_used: Timestamp,
}

impl ValueView {
    /// Where the value lies.
    pub open spec fn location(self) -> Location {
        Location { file_id: self.file_id, offset: self.file_offset, length: self.length }
    }
}

/// A row of the manifest: where the value of a key lies, and when it was
/// last used. Once written, a row's location does not change; a key gets a
/// new value by a new row.
#[derive(Debug)]
pub struct Value {
    file_id: FileId,
    file_offset: u64,
    length: u64,
    last_used: Timestamp,
}

impl View for Value {
    type V = ValueView;

    closed spec fn view(&self) -> ValueView {
        ValueView {
            file_id: self.file_id@,
            file_offset: self.file_offset,
            length: self.length,
            last_used: self.last_used,
        }
    }
}

impl Clone for Value {
    fn clone(&self) -> (value: Value)
        ensures
            value@ == self@,
    {
        Value {
            file_id: self.file_id.clone(),
            file_offset: self.file_offset,
            length: self.length,
            last_used: self.last_used,
        }
    }
}

impl Value {
    /// The row with these columns.
    pub fn new(file_id: FileId, file_offset: u64, length: u64, last_used: Timestamp) -> (value:
        Value)
        ensures
            value@ == (ValueView { file_id: file_id@, file_offset, length, last_used }),
    {
        Value { file_id, file_offset, length, last_used }
    }

    /// The row that the manifest holds in these columns, where the time
    /// of the last use is in milliseconds since the start of 1970. Fails
    /// with [`Error::TimestampOutOfRange`] where that is no point in time.
    pub fn from_row(file_id: FileId, file_offset: u64, length: u64, last_used: i64) -> (value:
        Result<Value, Error>)
        ensures
            datetime_exists_at_millis(last_used as int) ==> {
                &&& value is Ok
                &&& value->Ok_0@.file_id == file_id@
                &&& value->Ok_0@.file_offset == file_offset
                &&& value->Ok_0@.length == length
                &&& value->Ok_0@.last_used.spec_millis() == last_used
            },
            !datetime_exists_at_millis(last_used as int) ==> value is Err && value->Err_0
                == Error::TimestampOutOfRange(last_used),
    {
        match Timestamp::from_millis(last_used) {
            Ok(last_used) => Ok(Value { file_id, file_offset, length, last_used }),
            Err(error) => Err(error),
        }
    }

    /// The file that holds the value.
    pub fn file_id(&self) -> (file_id: &FileId)
        ensures
            file_id@ == self@.file_id,
    {
        &self.file_id
    }

    /// Where the value starts in its file.
    pub fn file_offset(&self) -> (file_offset: u64)
        ensures
            file_offset == self@.file_offset,
    {
        self.file_offset
    }

    /// How many bytes the value has.
    pub fn length(&self) -> (length: u64)
        ensures
            length == self@.length,
    {
        self.length
    }

    /// When the value was last used.
    pub fn last_used(&self) -> (last_used: Timestamp)
        ensures
            last_used == self@.last_used,
    {
        self.last_used
    }

    /// The offset of the first byte behind the value, or
    /// [`Error::Conversion`] where that is no offset.
    pub fn end_offset(&self) -> (end: Result<u64, Error>)
        ensures
            self@.location().end() <= u64::MAX ==> end == Ok::<u64, Error>(
                self@.location().end() as u64,
            ),
            self@.location().end() > u64::MAX ==> end == Err::<u64, Error>(Error::Conversion),
    {
        if self.length > u64::MAX - self.file_offset {
            Err(Error::Conversion)
        } else {
            Ok(self.file_offset + self.length)
        }
    }
}

/// A key of the store together with its row.
#[derive(Debug)]
pub struct Item {
    pub key: Vec<u8>,
    pub value: Value,
}

/// An item as contracts speak of it.
pub struct ItemView {
    pub key: Seq<u8>,
    pub value: ValueView,
}

impl View for Item {
    type V = ItemView;

    open spec fn view(&self) -> ItemView {
        ItemView { key: self.key@, value: self.value@ }
    }
}

impl Clone for Item {
    fn clone(&self) -> (item: Item)
        ensures
            item@ == self@,
    {
        Item { key: copy_bytes(&self.key), value: self.value.clone() }
    }
}

} // verus!
