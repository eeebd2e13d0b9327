//! The time at which a value was last used.

use vstd::prelude::*;
use crate::error::Error;

verus! {

/// Whether chrono has a date and time that lies `millis` milliseconds from
/// the start of 1970.
pub uninterp spec fn datetime_exists_at_millis(millis: int) -> bool;

/// Asks chrono's `NaiveDateTime::from_timestamp_millis` for the date and
/// time at `millis`, and reports whether there is one. The contract claims
/// only that the answer depends on `millis` alone.
#[allow(deprecated)]
#[verifier::external_body]
fn datetime_exists(millis: i64) -> (exists: bool)
    ensures
        exists == datetime_exists_at_millis(millis as int),
{
    chrono::NaiveDateTime::from_timestamp_millis(millis).is_some()
}

/// A point in time, in milliseconds since the start of 1970. The manifest
/// stamps each row with the time of its last use, at this resolution.
#[derive(Debug, Clone, Copy, PartialEq, Eq, Structural, PartialOrd)]
pub struct Timestamp {
    millis: i64,
}

/// The resolution of a timestamp, in milliseconds.
pub const LAST_USED_RESOLUTION_MILLIS: u64 = 1;

impl Timestamp {
    /// The milliseconds since the start of 1970.
    pub closed spec fn spec_millis(self) -> i64 {
        self.millis
    }

    /// The timestamp at `millis`, where `exists` says whether there is a
    /// date and time at that point.
    pub fn from_checked_millis(millis: i64, exists: bool) -> (timestamp: Result<Timestamp, Error>)
        ensures
            exists ==> timestamp is Ok && timestamp->Ok_0.spec_millis() == millis,
            !exists ==> timestamp == Err::<Timestamp, Error>(Error::TimestampOutOfRange(millis)),
    {
        if exists {
            Ok(Timestamp { millis })
        } else {
            Err(Error::TimestampOutOfRange(millis))
        }
    }

    /// The timestamp at `millis`, as a column of the manifest holds it.
    /// Fails where there is no date and time at that point.
    pub fn from_millis(millis: i64) -> (timestamp: Result<Timestamp, Error>)
        ensures
            datetime_exists_at_millis(millis as int) ==> timestamp is Ok
                && timestamp->Ok_0.spec_millis() == millis,
            !datetime_exists_at_millis(millis as int) ==> timestamp == Err::<Timestamp, Error>(
                Error::TimestampOutOfRange(millis),
            ),
    {
        Timestamp::from_checked_millis(millis, datetime_exists(millis))
    }

    /// The milliseconds since the start of 1970.
    pub fn millis(&self) -> (millis: i64)
        ensures
            millis == self.spec_millis(),
    {
        self.millis
    }
}

} // verus!
