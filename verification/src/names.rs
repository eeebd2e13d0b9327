//! The names of the files in a store directory.

use vstd::prelude::*;
use crate::error::{Error, IoErrorKind};
use crate::file_id::FileId;

verus! {

/// How many random characters the name of a value file ends in.
pub const FILE_NAME_RAND_LENGTH: usize = 8;

/// What the name of every value file starts with: the bytes of `values-`.
pub const VALUES_FILE_NAME_PREFIX: [u8; 7] = [118, 97, 108, 117, 101, 115, 45];

/// What the name of every snapshot directory starts with: the bytes of
/// `snapshot-`.
pub const SNAPSHOT_DIR_NAME_PREFIX: [u8; 9] = [115, 110, 97, 112, 115, 104, 111, 116, 45];

/// The name of the manifest's file: the bytes of `manifest.db`.
pub const MANIFEST_DB_FILE_NAME: [u8; 11] = [109, 97, 110, 105, 102, 101, 115, 116, 46, 100, 98];

/// Whether `byte` is an ASCII letter or digit.
pub open spec fn is_alphanumeric(byte: u8) -> bool {
    ||| 48 <= byte <= 57
    ||| 65 <= byte <= 90
    ||| 97 <= byte <= 122
}

/// Whether `name` is the name of a value file: it starts with the prefix
/// of value files, and not with the name of the manifest.
pub open spec fn valid_file_name_spec(name: Seq<u8>) -> bool {
    &&& !MANIFEST_DB_FILE_NAME@.is_prefix_of(name)
    &&& VALUES_FILE_NAME_PREFIX@.is_prefix_of(name)
}

/// Whether `bytes` starts with `prefix`.
pub fn starts_with(bytes: &[u8], prefix: &[u8]) -> (starts: bool)
    ensures
        starts == prefix@.is_prefix_of(bytes@),
{
    if prefix.len() > bytes.len() {
        return false;
    }
    let mut i: usize = 0;
    while i < prefix.len()
        invariant
            i <= prefix.len(),
            prefix.len() <= bytes.len(),
            forall|j: int| 0 <= j < i ==> prefix@[j] == bytes@[j],
        decreases prefix.len() - i,
    {
        if prefix[i] != bytes[i] {
            assert(prefix@[i as int] != bytes@.subrange(0, prefix@.len() as int)[i as int]);
            return false;
        }
        i += 1;
    }
    assert(prefix@ =~= bytes@.subrange(0, prefix@.len() as int));
    true
}

/// Whether `file_name` is the name of a value file.
pub fn valid_file_name(file_name: &[u8]) -> (valid: bool)
    ensures
        valid == valid_file_name_spec(file_name@),
{
    if starts_with(file_name, &MANIFEST_DB_FILE_NAME) {
        return false;
    }
    starts_with(file_name, &VALUES_FILE_NAME_PREFIX)
}

/// Draws `count` bytes from rand's `Alphanumeric` distribution with the
/// generator of the current thread. Which bytes come out is chance; the
/// contract claims what rand's source shows of every outcome: there are
/// `count` of them, and each is an ASCII letter or digit.
#[verifier::external_body]
fn random_alphanumerics(count: usize) -> (bytes: Vec<u8>)
    ensures
        bytes@.len() == count,
        forall|i: int| 0 <= i < count ==> is_alphanumeric(#[trigger] bytes@[i]),
{
    rand::Rng::sample_iter(rand::thread_rng(), rand::distributions::Alphanumeric).take(
        count,
    ).collect()
}

/// The name of the value file whose random part is `suffix`.
pub fn file_name_with_suffix(suffix: &Vec<u8>) -> (name: Vec<u8>)
    ensures
        name@ == VALUES_FILE_NAME_PREFIX@ + suffix@,
{
    let mut name: Vec<u8> = Vec::new();
    let mut i: usize = 0;
    while i < VALUES_FILE_NAME_PREFIX.len()
        invariant
            i <= VALUES_FILE_NAME_PREFIX@.len(),
            name@ == VALUES_FILE_NAME_PREFIX@.subrange(0, i as int),
        decreases VALUES_FILE_NAME_PREFIX@.len() - i,
    {
        name.push(VALUES_FILE_NAME_PREFIX[i]);
        i += 1;
        assert(name@ =~= VALUES_FILE_NAME_PREFIX@.subrange(0, i as int));
    }
    assert(name@ =~= VALUES_FILE_NAME_PREFIX@);
    let mut j: usize = 0;
    while j < suffix.len()
        invariant
            j <= suffix@.len(),
            name@ == VALUES_FILE_NAME_PREFIX@ + suffix@.subrange(0, j as int),
        decreases suffix@.len() - j,
    {
        name.push(suffix[j]);
        j += 1;
        assert(name@ =~= VALUES_FILE_NAME_PREFIX@ + suffix@.subrange(0, j as int));
    }
    assert(suffix@.subrange(0, j as int) =~= suffix@);
    name
}

/// A name for a new value file that is, in all likelihood, not taken:
/// the prefix of value files and [`FILE_NAME_RAND_LENGTH`] random letters
/// and digits. Every such name is the name of a value file.
pub fn random_file_name() -> (name: Vec<u8>)
    ensures
        name@.len() == VALUES_FILE_NAME_PREFIX@.len() + FILE_NAME_RAND_LENGTH,
        VALUES_FILE_NAME_PREFIX@.is_prefix_of(name@),
        forall|i: int|
            VALUES_FILE_NAME_PREFIX@.len() <= i < name@.len() ==> is_alphanumeric(
                #[trigger] name@[i],
            ),
        valid_file_name_spec(name@),
{
    let suffix = random_alphanumerics(FILE_NAME_RAND_LENGTH);
    let name = file_name_with_suffix(&suffix);
    proof {
        assert(name@.subrange(0, VALUES_FILE_NAME_PREFIX@.len() as int)
            =~= VALUES_FILE_NAME_PREFIX@);
        assert forall|i: int| VALUES_FILE_NAME_PREFIX@.len() <= i < name@.len() implies is_alphanumeric(
            #[trigger] name@[i],
        ) by {
            assert(name@[i] == suffix@[i - VALUES_FILE_NAME_PREFIX@.len()]);
        }
        assert(!MANIFEST_DB_FILE_NAME@.is_prefix_of(name@)) by {
            if MANIFEST_DB_FILE_NAME@.is_prefix_of(name@) {
                assert(MANIFEST_DB_FILE_NAME@[0] == name@.subrange(
                    0,
                    MANIFEST_DB_FILE_NAME@.len() as int,
                )[0]);
                assert(name@[0] == VALUES_FILE_NAME_PREFIX@[0]);
            }
        }
    }
    name
}

/// What to do after an attempt to create a file under a random name.
#[derive(Debug, Clone, Copy, PartialEq, Eq, Structural)]
pub enum CreateStep {
    /// The file is there under the name.
    Created,
    /// The name was taken: try again under another random name.
    Retry,
    /// Give up with this failure.
    Failed(Error),
}

/// Says what to do after an attempt to create a file under a random
/// name, which fails if the name is taken. A taken name is tried again
/// under a fresh one, however often that happens; any other failure ends
/// the creation.
pub fn create_step(attempt: Option<IoErrorKind>) -> (step: CreateStep)
    ensures
        step == match attempt {
            None => CreateStep::Created,
            Some(IoErrorKind::AlreadyExists) => CreateStep::Retry,
            Some(kind) => CreateStep::Failed(Error::Io(kind)),
        },
{
    match attempt {
        None => CreateStep::Created,
        Some(IoErrorKind::AlreadyExists) => CreateStep::Retry,
        Some(kind) => CreateStep::Failed(Error::Io(kind)),
    }
}

/// The identity of the value file with a fresh random name.
pub fn random_file_id() -> (id: FileId)
    ensures
        valid_file_name_spec(id@),
{
    FileId::new(random_file_name())
}

} // verus!
