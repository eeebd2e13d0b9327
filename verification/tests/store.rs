use std::path::PathBuf;

use possum::dir::Dir;
use possum::error::Error;
use possum::exclusive_file::ExclusiveFile;
use possum::file_id::FileId;
use possum::handle::Handle;
use possum::punch::{punch_value, PunchFacts, PunchOutcome, PunchValueOptions};
use possum::reader::Reader;
use possum::snapshot::{FileClone, Snapshot};
use possum::table::FileTable;
use possum::timestamp::Timestamp;
use possum::value::Value;
use possum::writer::BatchWriter;

/// A store whose value files, clones and manifest are kept in memory.
struct Store {
    handle: Handle,
    block_size: u64,
    files: Vec<(Vec<u8>, Vec<u8>)>,
    clones: Vec<Vec<u8>>,
    manifest: Vec<(Vec<u8>, Value)>,
    created: u32,
    punched: Vec<PunchOutcome>,
}

fn store_with_blocks(block_size: u64) -> Store {
    Store {
        handle: Handle::new(Dir::new(PathBuf::from("store"))),
        block_size,
        files: Vec::new(),
        clones: Vec::new(),
        manifest: Vec::new(),
        created: 0,
        punched: Vec::new(),
    }
}

fn new_store() -> Store {
    store_with_blocks(4096)
}

fn file_index(store: &Store, id: &FileId) -> Option<usize> {
    store.files.iter().position(|(name, _)| name == id.as_bytes())
}

fn create_file(store: &mut Store) -> ExclusiveFile {
    let name = format!("values-{:08}", store.created).into_bytes();
    store.created += 1;
    store.files.push((name.clone(), Vec::new()));
    ExclusiveFile::new(FileId::new(name))
}

fn lookup(store: &Store, key: &[u8]) -> Result<Value, Error> {
    match store.manifest.iter().find(|(row_key, _)| row_key == key) {
        Some((_, value)) => Ok(value.clone()),
        None => Err(Error::NoSuchKey),
    }
}

fn write_batch(store: &mut Store, writes: &[(&[u8], &[u8])]) -> usize {
    let mut batch = BatchWriter::new();
    for (key, value) in writes {
        let mut writer = match batch.new_value().begin(&mut store.handle) {
            Some(writer) => writer,
            None => {
                let file = create_file(store);
                batch.new_value().begin_in(file)
            }
        };
        let index = file_index(store, writer.file_id()).unwrap();
        assert_eq!(store.files[index].1.len() as u64, writer.next_write_offset());
        store.files[index].1.extend_from_slice(value);
        assert_eq!(writer.copy_from(Ok(value.len() as u64)), Ok(value.len() as u64));
        assert_eq!(writer.value_length(), value.len() as u64);
        batch.stage_write(key.to_vec(), writer).unwrap();
    }
    let now = Timestamp::from_millis(1_700_000_000_000).unwrap();
    let mut deleted = Vec::new();
    for write in batch.pending_writes() {
        let old = store.manifest.iter().position(|(key, _)| *key == write.key);
        deleted.push(old.map(|index| store.manifest.remove(index).1));
        let row = Value::new(
            write.value_file_id.clone(),
            write.value_file_offset,
            write.value_length,
            now,
        );
        store.manifest.push((write.key.clone(), row));
    }
    assert!(batch.can_flush(&store.handle));
    let mut work = batch.commit(&mut store.handle, deleted, Ok(())).unwrap();
    while let Some(value) = work.next_work() {
        punch(store, &value);
    }
    work.complete(Ok(())).unwrap().count()
}

fn punch(store: &mut Store, value: &Value) {
    let opts = PunchValueOptions::for_value(value, store.block_size);
    let end = value.file_offset() + value.length();
    let in_file = |row: &&(Vec<u8>, Value)| row.1.file_id() == value.file_id();
    let last_end_offset = store
        .manifest
        .iter()
        .filter(in_file)
        .map(|(_, row)| row.file_offset() + row.length())
        .filter(|row_end| *row_end <= value.file_offset())
        .max()
        .unwrap_or(0);
    let next_value_offset = store
        .manifest
        .iter()
        .filter(in_file)
        .map(|(_, row)| row.file_offset())
        .filter(|row_start| *row_start >= end)
        .min();
    let index = file_index(store, value.file_id());
    // The file is locked by the pool if the pool holds it.
    let locked = !store.handle.has_exclusive_file(value.file_id());
    let facts = PunchFacts {
        open_error: if index.is_some() { None } else { Some(possum::error::IoErrorKind::NotFound) },
        last_end_offset,
        next_value_offset,
        locked,
        file_end: index.map(|index| store.files[index].1.len() as u64).unwrap_or(0),
    };
    let outcome = punch_value(opts, &facts).unwrap();
    match outcome {
        PunchOutcome::Nothing => {}
        PunchOutcome::Remove => {
            store.files.remove(index.unwrap());
        }
        PunchOutcome::Truncate { len } => store.files[index.unwrap()].1.truncate(len as usize),
        PunchOutcome::Punch { offset, length, .. } => {
            let content = &mut store.files[index.unwrap()].1;
            for byte in &mut content[offset as usize..(offset + length) as usize] {
                *byte = 0;
            }
        }
    }
    store.punched.push(outcome);
}

fn snapshot(store: &mut Store, keys: &[&[u8]]) -> (Snapshot, Vec<Option<Value>>) {
    let mut reader = Reader::new();
    let mut values = Vec::new();
    for key in keys {
        values.push(reader.add(lookup(store, key)).unwrap());
    }
    let mut made = FileTable::new();
    for id in reader.files_to_clone(&store.handle) {
        let content = store.files[file_index(store, &id).unwrap()].1.clone();
        let clone = FileClone { token: store.clones.len() as u64, len: content.len() as u64 };
        store.clones.push(content);
        made.insert(id, clone);
    }
    let snapshot = reader.begin(&mut store.handle, &made, Ok(())).unwrap();
    (snapshot, values)
}

fn read(store: &Store, snapshot: &Snapshot, value: &Value) -> Vec<u8> {
    assert!(snapshot.file_clone(value.file_id()).is_some());
    let bound = snapshot.value(value.clone());
    let clone = &store.clones[bound.file_clone().token as usize];
    bound.view(clone, |bytes| bytes.to_vec()).unwrap()
}

fn read_key(store: &mut Store, key: &[u8]) -> Option<Vec<u8>> {
    let (snapshot, values) = snapshot(store, &[key]);
    values[0].as_ref().map(|value| read(store, &snapshot, value))
}

#[test]
fn batch_of_two_writes_commits_both() {
    let mut store = new_store();
    let count = write_batch(&mut store, &[(b"a", b"hello"), (b"b", b"world")]);
    assert_eq!(count, 2);
    assert_eq!(read_key(&mut store, b"a"), Some(b"hello".to_vec()));
    assert_eq!(read_key(&mut store, b"b"), Some(b"world".to_vec()));
}

#[test]
fn written_value_is_read_back() {
    let values: [&[u8]; 5] = [b"", b"x", b"hello world", &[0u8; 5000], &[255u8, 0, 1, 2]];
    for value in values {
        let mut store = new_store();
        assert_eq!(write_batch(&mut store, &[(b"key", value)]), 1);
        assert_eq!(read_key(&mut store, b"key"), Some(value.to_vec()));
    }
}

#[test]
fn values_written_in_separate_batches_are_read_back() {
    let mut store = new_store();
    write_batch(&mut store, &[(b"a", b"first")]);
    write_batch(&mut store, &[(b"b", b"second"), (b"c", b"third")]);
    write_batch(&mut store, &[(b"d", b"fourth")]);
    assert_eq!(read_key(&mut store, b"a"), Some(b"first".to_vec()));
    assert_eq!(read_key(&mut store, b"b"), Some(b"second".to_vec()));
    assert_eq!(read_key(&mut store, b"c"), Some(b"third".to_vec()));
    assert_eq!(read_key(&mut store, b"d"), Some(b"fourth".to_vec()));
}

#[test]
fn values_of_one_batch_share_a_file_without_overlap() {
    let mut store = new_store();
    write_batch(&mut store, &[(b"a", b"hello"), (b"b", b"world")]);
    assert_eq!(store.files.len(), 1);
    assert_eq!(store.files[0].1, b"helloworld".to_vec());
    let a = lookup(&store, b"a").unwrap();
    let b = lookup(&store, b"b").unwrap();
    assert_eq!((a.file_offset(), a.length()), (0, 5));
    assert_eq!((b.file_offset(), b.length()), (5, 5));
}

#[test]
fn missing_key_is_not_an_error() {
    let mut store = new_store();
    write_batch(&mut store, &[(b"a", b"hello")]);
    assert_eq!(read_key(&mut store, b"b"), None);
}

#[test]
fn overwritten_key_reads_as_its_new_value() {
    let mut store = new_store();
    write_batch(&mut store, &[(b"a", b"xxxxx")]);
    write_batch(&mut store, &[(b"a", b"y")]);
    assert_eq!(read_key(&mut store, b"a"), Some(b"y".to_vec()));
    assert_eq!(store.manifest.len(), 1);
}

#[test]
fn key_written_twice_in_one_batch_reads_as_the_last_value() {
    let mut store = new_store();
    assert_eq!(write_batch(&mut store, &[(b"a", b"one"), (b"a", b"two")]), 2);
    assert_eq!(read_key(&mut store, b"a"), Some(b"two".to_vec()));
    assert_eq!(store.manifest.len(), 1);
}

#[test]
fn snapshot_before_overwrite_still_reads_the_old_value() {
    let mut store = new_store();
    write_batch(&mut store, &[(b"a", b"xxxxx")]);
    let (before, values) = snapshot(&mut store, &[b"a"]);
    let old = values[0].clone().unwrap();
    write_batch(&mut store, &[(b"a", b"y")]);
    assert_eq!(store.punched.len(), 1);
    assert_eq!(read(&store, &before, &old), b"xxxxx".to_vec());
    assert_eq!(read_key(&mut store, b"a"), Some(b"y".to_vec()));
}

#[test]
fn snapshot_reads_the_old_value_after_its_bytes_were_punched() {
    // With blocks of one byte every superseded range is punched at once.
    let mut store = store_with_blocks(1);
    write_batch(&mut store, &[(b"a", b"xxxxx"), (b"b", b"keep")]);
    let (before, values) = snapshot(&mut store, &[b"a", b"b"]);
    let old = values[0].clone().unwrap();
    let kept = values[1].clone().unwrap();
    write_batch(&mut store, &[(b"a", b"y")]);
    assert_eq!(
        store.punched,
        vec![PunchOutcome::Punch { offset: 0, length: 5, check_hole: true }]
    );
    // The value file has lost the old bytes, and nothing else.
    assert_eq!(store.files[0].1, b"\0\0\0\0\0keepy".to_vec());
    assert_eq!(read(&store, &before, &old), b"xxxxx".to_vec());
    assert_eq!(read(&store, &before, &kept), b"keep".to_vec());
    assert_eq!(read_key(&mut store, b"a"), Some(b"y".to_vec()));
    assert_eq!(read_key(&mut store, b"b"), Some(b"keep".to_vec()));
}

#[test]
fn live_values_survive_any_sequence_of_overwrites() {
    let mut store = store_with_blocks(4);
    let keys: [&[u8]; 3] = [b"a", b"b", b"c"];
    let mut expected: Vec<Option<Vec<u8>>> = vec![None, None, None];
    for round in 0u8..40 {
        let which = (round as usize * 7 + 3) % 3;
        let len = (round as usize * 5) % 13;
        let value = vec![round + 1; len];
        write_batch(&mut store, &[(keys[which], &value)]);
        expected[which] = Some(value);
        for (key, want) in keys.iter().zip(expected.clone()) {
            assert_eq!(read_key(&mut store, key), want);
        }
    }
    assert!(store.punched.iter().any(|outcome| matches!(outcome, PunchOutcome::Punch { .. })));
}

#[test]
fn deleting_the_only_value_removes_the_file() {
    let mut store = new_store();
    write_batch(&mut store, &[(b"a", b"hello")]);
    let (_, value) = store.manifest.remove(0);
    // Another writer holds no lock: take the file out of the pool as a punch
    // would find it after the handle was closed.
    let file = store.handle.get_exclusive_file().unwrap();
    assert_eq!(file.id().as_bytes(), value.file_id().as_bytes());
    punch(&mut store, &value);
    assert_eq!(store.punched, vec![PunchOutcome::Remove]);
    assert!(store.files.is_empty());
}

#[test]
fn failed_commit_reclaims_nothing_and_returns_the_files() {
    let mut store = new_store();
    write_batch(&mut store, &[(b"a", b"hello")]);
    let mut batch = BatchWriter::new();
    let mut writer = batch.new_value().begin(&mut store.handle).unwrap();
    assert_eq!(writer.copy_from(Ok(3)), Ok(3));
    batch.stage_write(b"a".to_vec(), writer).unwrap();
    assert!(!store.handle.has_exclusive_file(&FileId::new(b"values-00000000".to_vec())));
    let old = lookup(&store, b"a").unwrap();
    let work = batch.commit(&mut store.handle, vec![Some(old)], Err(Error::Manifest));
    assert_eq!(work.unwrap_err(), Error::Manifest);
    assert!(store.handle.has_exclusive_file(&FileId::new(b"values-00000000".to_vec())));
}

#[test]
fn commit_counts_its_writes_and_hands_over_the_superseded_rows_in_order() {
    let mut handle = Handle::new(Dir::new(PathBuf::from("store")));
    let now = Timestamp::from_millis(0).unwrap();
    let mut batch = BatchWriter::new();
    for key in [b"a", b"b", b"c"] {
        let writer = batch
            .new_value()
            .begin_in(ExclusiveFile::new(FileId::new([b"values-", &key[..]].concat())));
        batch.stage_write(key.to_vec(), writer).unwrap();
    }
    let old_a = Value::new(FileId::new(b"values-x".to_vec()), 10, 20, now);
    let old_c = Value::new(FileId::new(b"values-y".to_vec()), 30, 40, now);
    let mut work = batch
        .commit(&mut handle, vec![Some(old_a), None, Some(old_c)], Ok(()))
        .unwrap();
    let first = work.next_work().unwrap();
    assert_eq!((first.file_id().as_bytes().as_slice(), first.file_offset(), first.length()), (&b"values-x"[..], 10, 20));
    let second = work.next_work().unwrap();
    assert_eq!((second.file_id().as_bytes().as_slice(), second.file_offset(), second.length()), (&b"values-y"[..], 30, 40));
    assert!(work.next_work().is_none());
    assert_eq!(work.complete(Ok(())).unwrap().count(), 3);
}

#[test]
fn commit_with_answers_that_do_not_match_the_writes_is_refused() {
    let mut handle = Handle::new(Dir::new(PathBuf::from("store")));
    let mut batch = BatchWriter::new();
    let writer = batch.new_value().begin_in(ExclusiveFile::new(FileId::new(b"values-a".to_vec())));
    batch.stage_write(b"a".to_vec(), writer).unwrap();
    let work = batch.commit(&mut handle, vec![None, None], Ok(()));
    assert_eq!(work.unwrap_err(), Error::UnexpectedEvent);
    assert!(handle.has_exclusive_file(&FileId::new(b"values-a".to_vec())));
}
