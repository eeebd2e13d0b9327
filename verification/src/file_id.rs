//! The names of value files.

use vstd::prelude::*;
use vstd::std_specs::cmp::PartialEqSpecImpl;

verus! {

/// The identity of one value file: its file name, as bytes.
#[derive(Debug)]
pub struct FileId {
    name: Vec<u8>,
}

impl View for FileId {
    type V = Seq<u8>;

    closed spec fn view(&self) -> Seq<u8> {
        self.name@
    }
}

impl FileId {
    /// The identity of the value file called `name`.
    pub fn new(name: Vec<u8>) -> (id: FileId)
        ensures
            id@ == name@,
    {
        FileId { name }
    }

    /// The file name.
    pub fn as_bytes(&self) -> (name: &Vec<u8>)
        ensures
            name@ == self@,
    {
        &self.name
    }

    /// Gives the file name back.
    pub fn into_bytes(self) -> (name: Vec<u8>)
        ensures
            name@ == self@,
    {
        self.name
    }
}

impl Clone for FileId {
    fn clone(&self) -> (id: FileId)
        ensures
            id@ == self@,
    {
        FileId { name: copy_bytes(&self.name) }
    }
}

impl PartialEq for FileId {
    fn eq(&self, other: &FileId) -> (equal: bool) {
        bytes_equal(&self.name, &other.name)
    }
}

impl Eq for FileId {

}

impl PartialEqSpecImpl for FileId {
    open spec fn obeys_eq_spec() -> bool {
        true
    }

    open spec fn eq_spec(&self, other: &FileId) -> bool {
        self@ == other@
    }
}

/// A copy of `bytes`.
pub fn copy_bytes(bytes: &Vec<u8>) -> (copy: Vec<u8>)
    ensures
        copy@ == bytes@,
{
    let mut copy: Vec<u8> = Vec::with_capacity(bytes.len());
    let mut i: usize = 0;
    while i < bytes.len()
        invariant
            i <= bytes.len(),
            copy@ == bytes@.subrange(0, i as int),
        decreases bytes.len() - i,
    {
        copy.push(bytes[i]);
        i += 1;
        assert(copy@ =~= bytes@.subrange(0, i as int));
    }
    assert(bytes@.subrange(0, i as int) =~= bytes@);
    copy
}

/// Whether two byte strings are the same.
pub fn bytes_equal(left: &Vec<u8>, right: &Vec<u8>) -> (equal: bool)
    ensures
        equal == (left@ == right@),
{
    if left.len() != right.len() {
        return false;
    }
    let mut i: usize = 0;
    while i < left.len()
        invariant
            i <= left.len(),
            left.len() == right.len(),
            left@.subrange(0, i as int) == right@.subrange(0, i as int),
        decreases left.len() - i,
    {
        if left[i] != right[i] {
            return false;
        }
        i += 1;
        assert(left@.subrange(0, i as int) =~= left@.subrange(0, i - 1).push(left@[i - 1]));
        assert(right@.subrange(0, i as int) =~= right@.subrange(0, i - 1).push(right@[i - 1]));
    }
    assert(left@.subrange(0, i as int) =~= left@);
    assert(right@.subrange(0, i as int) =~= right@);
    true
}

} // verus!
