use possum::error::Error;
use possum::file_id::{bytes_equal, copy_bytes, FileId};
use possum::ownedtx::OwnedTx;
use possum::sys::path_disk_allocation;
use possum::table::FileTable;
use possum::timestamp::{Timestamp, LAST_USED_RESOLUTION_MILLIS};
use possum::value::Value;

fn id(name: &[u8]) -> FileId {
    FileId::new(name.to_vec())
}

#[test]
fn timestamp_holds_its_milliseconds() {
    assert_eq!(Timestamp::from_millis(0).unwrap().millis(), 0);
    assert_eq!(Timestamp::from_millis(1_700_000_000_123).unwrap().millis(), 1_700_000_000_123);
    assert_eq!(Timestamp::from_millis(-1).unwrap().millis(), -1);
    assert_eq!(LAST_USED_RESOLUTION_MILLIS, 1);
}

#[test]
fn timestamp_far_from_the_common_era_is_out_of_range() {
    assert_eq!(Timestamp::from_millis(i64::MAX), Err(Error::TimestampOutOfRange(i64::MAX)));
    assert_eq!(Timestamp::from_millis(i64::MIN), Err(Error::TimestampOutOfRange(i64::MIN)));
}

#[test]
fn timestamp_from_a_checked_number() {
    assert_eq!(Timestamp::from_checked_millis(5, true).unwrap().millis(), 5);
    assert_eq!(Timestamp::from_checked_millis(5, false), Err(Error::TimestampOutOfRange(5)));
}

#[test]
fn timestamps_are_ordered_by_time() {
    let early = Timestamp::from_millis(1).unwrap();
    let late = Timestamp::from_millis(2).unwrap();
    assert!(early < late);
    assert_eq!(early, Timestamp::from_millis(1).unwrap());
}

#[test]
fn row_is_made_of_its_columns() {
    let value = Value::from_row(id(b"values-a"), 10, 20, 1_000).unwrap();
    assert_eq!(value.file_id(), &id(b"values-a"));
    assert_eq!(value.file_offset(), 10);
    assert_eq!(value.length(), 20);
    assert_eq!(value.last_used().millis(), 1_000);
    assert_eq!(value.end_offset(), Ok(30));
    let copy = value.clone();
    assert_eq!(copy.file_id(), value.file_id());
    assert_eq!(copy.file_offset(), 10);
}

#[test]
fn row_with_a_time_out_of_range_is_refused() {
    assert_eq!(
        Value::from_row(id(b"values-a"), 10, 20, i64::MAX).unwrap_err(),
        Error::TimestampOutOfRange(i64::MAX)
    );
}

#[test]
fn row_whose_end_is_no_offset() {
    let now = Timestamp::from_millis(0).unwrap();
    assert_eq!(Value::new(id(b"values-a"), u64::MAX, 1, now).end_offset(), Err(Error::Conversion));
    assert_eq!(Value::new(id(b"values-a"), u64::MAX - 1, 1, now).end_offset(), Ok(u64::MAX));
}

#[test]
fn file_ids_are_equal_by_name() {
    assert_eq!(id(b"values-a"), id(b"values-a"));
    assert_ne!(id(b"values-a"), id(b"values-b"));
    assert_ne!(id(b"values-a"), id(b"values-"));
    assert_eq!(id(b"values-a").clone(), id(b"values-a"));
    assert_eq!(id(b"values-a").as_bytes(), &b"values-a".to_vec());
    assert!(bytes_equal(&vec![1, 2], &vec![1, 2]));
    assert!(!bytes_equal(&vec![1, 2], &vec![1, 3]));
    assert!(!bytes_equal(&vec![1, 2], &vec![1]));
    assert_eq!(copy_bytes(&vec![9, 8, 7]), vec![9, 8, 7]);
}

#[test]
fn table_holds_one_entry_for_each_file() {
    let mut table = FileTable::new();
    assert_eq!(table.len(), 0);
    assert_eq!(table.insert(id(b"a"), 1), None);
    assert_eq!(table.insert(id(b"b"), 2), None);
    assert_eq!(table.insert(id(b"a"), 3), Some(1));
    assert_eq!(table.len(), 2);
    assert_eq!(table.get(&id(b"a")), Some(&3));
    assert_eq!(table.get(&id(b"b")), Some(&2));
    assert_eq!(table.get(&id(b"c")), None);
    assert_eq!(table.position(&id(b"b")), Some(1));
    assert_eq!(table.key_at(0), &id(b"a"));
    assert_eq!(table.value_at(1), &2);
}

#[test]
fn table_gives_up_its_entries() {
    let mut table = FileTable::new();
    table.insert(id(b"a"), 1);
    table.insert(id(b"b"), 2);
    table.insert(id(b"c"), 3);
    assert_eq!(table.remove(&id(b"b")), Some(2));
    assert_eq!(table.remove(&id(b"b")), None);
    assert_eq!(table.position(&id(b"c")), Some(1));
    assert_eq!(table.pop(), Some((id(b"c"), 3)));
    assert_eq!(table.pop(), Some((id(b"a"), 1)));
    assert_eq!(table.pop(), None);
    assert_eq!(table.len(), 0);
}

#[test]
fn work_is_handed_over_only_after_the_commit() {
    let now = Timestamp::from_millis(0).unwrap();
    let mut tx = OwnedTx::new();
    tx.delete_key(Some(Value::new(id(b"values-a"), 0, 5, now)));
    tx.delete_key(None);
    tx.delete_key(Some(Value::new(id(b"values-b"), 5, 6, now)));
    let mut work = tx.commit(Ok(()), "done").unwrap();
    assert_eq!(work.next_work().unwrap().file_id(), &id(b"values-a"));
    assert_eq!(work.next_work().unwrap().file_id(), &id(b"values-b"));
    assert!(work.next_work().is_none());
    assert_eq!(work.complete(Ok(())), Ok("done"));
}

#[test]
fn failed_commit_drops_the_work() {
    let now = Timestamp::from_millis(0).unwrap();
    let mut tx = OwnedTx::new();
    tx.delete_key(Some(Value::new(id(b"values-a"), 0, 5, now)));
    assert_eq!(tx.commit(Err(Error::Manifest), 7).unwrap_err(), Error::Manifest);
}

#[test]
fn failed_work_is_passed_on() {
    let now = Timestamp::from_millis(0).unwrap();
    let mut tx = OwnedTx::new();
    tx.delete_key(Some(Value::new(id(b"values-a"), 0, 5, now)));
    tx.delete_key(Some(Value::new(id(b"values-b"), 0, 5, now)));
    let mut work = tx.commit(Ok(()), 7).unwrap();
    assert!(work.next_work().is_some());
    assert_eq!(work.complete(Err(Error::Io(possum::error::IoErrorKind::Other))),
        Err(Error::Io(possum::error::IoErrorKind::Other)));
}

#[test]
fn work_left_undone_is_no_completion() {
    let now = Timestamp::from_millis(0).unwrap();
    let mut tx = OwnedTx::new();
    tx.delete_key(Some(Value::new(id(b"values-a"), 0, 5, now)));
    let work = tx.commit(Ok(()), 7).unwrap();
    assert_eq!(work.complete(Ok(())), Err(Error::UnexpectedEvent));
}

#[test]
fn transaction_without_deletions_yields_its_reward() {
    assert_eq!(OwnedTx::new().commit(Ok(()), 7).unwrap().complete(Ok(())), Ok(7));
}

#[test]
fn disk_allocation_counts_blocks_of_512_bytes() {
    assert_eq!(path_disk_allocation(0), Ok(0));
    assert_eq!(path_disk_allocation(8), Ok(4096));
    assert_eq!(path_disk_allocation(u64::MAX / 512), Ok(u64::MAX - 511));
    assert_eq!(path_disk_allocation(u64::MAX / 512 + 1), Err(Error::Conversion));
}
