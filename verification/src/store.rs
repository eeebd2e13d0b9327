//! The store as a whole: what a commit makes of the manifest, which rows
//! it supersedes, and what a reader finds afterwards.
//!
//! The manifest itself is kept by the caller. It is described here as a
//! map from keys to the locations of their values, so that what the
//! write path and the read path do to it can be stated together.

use vstd::prelude::*;
use crate::punch::{
    facts_describe, freed_bytes, law_punch_spares_live_values, punch_plan, PunchFacts,
    PunchValueOptions,
};
use crate::snapshot::window;
use crate::value::{Location, Value};
use crate::writer::{superseded, PendingWriteView};

verus! {

/// Whether two values share no byte: they lie in different files, or one
/// ends where the other starts or before.
pub open spec fn apart(left: Location, right: Location) -> bool {
    ||| left.file_id != right.file_id
    ||| left.end() <= right.offset
    ||| right.end() <= left.offset
}

/// The manifest after the commit of `writes`: each write, in order, puts
/// the row of its value in the place of the row that its key had.
pub open spec fn manifest_after(manifest: Map<Seq<u8>, Location>, writes: Seq<PendingWriteView>) -> Map<
    Seq<u8>,
    Location,
>
    decreases writes.len(),
{
    if writes.len() == 0 {
        manifest
    } else {
        manifest_after(manifest, writes.drop_last()).insert(
            writes.last().key,
            writes.last().location,
        )
    }
}

/// The row that the write at `index` deletes in the commit of `writes`:
/// the row that its key has when the writes before it are made.
pub open spec fn row_deleted_by(
    manifest: Map<Seq<u8>, Location>,
    writes: Seq<PendingWriteView>,
    index: int,
) -> Option<Location> {
    let before = manifest_after(manifest, writes.take(index));
    if before.contains_key(writes[index].key) {
        Some(before[writes[index].key])
    } else {
        None
    }
}

/// Whether the values of the manifest and of the writes share no byte:
/// no two rows of the manifest, no write and a row, and no two writes.
pub open spec fn values_apart(manifest: Map<Seq<u8>, Location>, writes: Seq<PendingWriteView>) -> bool {
    &&& forall|first: Seq<u8>, second: Seq<u8>|
        manifest.contains_key(first) && manifest.contains_key(second) && first != second ==> apart(
            #[trigger] manifest[first],
            #[trigger] manifest[second],
        )
    &&& forall|i: int, key: Seq<u8>|
        0 <= i < writes.len() && manifest.contains_key(key) ==> apart(
            (#[trigger] writes[i]).location,
            #[trigger] manifest[key],
        )
    &&& forall|i: int, j: int|
        0 <= i < writes.len() && 0 <= j < writes.len() && i != j ==> apart(
            (#[trigger] writes[i]).location,
            (#[trigger] writes[j]).location,
        )
}

/// Whether the write at `index` is the last of the first `count` writes
/// that writes `key`.
pub open spec fn last_write_of(
    writes: Seq<PendingWriteView>,
    count: int,
    key: Seq<u8>,
    index: int,
) -> bool {
    &&& 0 <= index < count
    &&& writes[index].key == key
    &&& forall|later: int| index < later < count ==> (#[trigger] writes[later]).key != key
}

/// Each row of the manifest after the first `count` writes is the row of
/// the last of them that wrote its key, or, if none did, the row that the
/// key had before.
pub proof fn lemma_rows_after(
    manifest: Map<Seq<u8>, Location>,
    writes: Seq<PendingWriteView>,
    count: int,
    key: Seq<u8>,
)
    requires
        0 <= count <= writes.len(),
        manifest_after(manifest, writes.take(count)).contains_key(key),
    ensures
        ({
            let after = manifest_after(manifest, writes.take(count));
            ||| (manifest.contains_key(key) && after[key] == manifest[key] && forall|i: int|
                0 <= i < count ==> (#[trigger] writes[i]).key != key)
            ||| exists|index: int| #[trigger]
                last_write_of(writes, count, key, index) && after[key] == writes[index].location
        }),
    decreases count,
{
    if count > 0 {
        let upto = writes.take(count);
        assert(upto.drop_last() =~= writes.take(count - 1));
        assert(upto.last() == writes[count - 1]);
        if writes[count - 1].key == key {
            assert(last_write_of(writes, count, key, count - 1));
        } else {
            lemma_rows_after(manifest, writes, count - 1, key);
            let before = manifest_after(manifest, writes.take(count - 1));
            if manifest.contains_key(key) && before[key] == manifest[key] && forall|i: int|
                0 <= i < count - 1 ==> (#[trigger] writes[i]).key != key {
            } else {
                let index = choose|index: int| #[trigger]
                    last_write_of(writes, count - 1, key, index) && before[key]
                        == writes[index].location;
                assert(last_write_of(writes, count, key, index));
            }
        }
    } else {
        assert(writes.take(0) =~= Seq::<PendingWriteView>::empty());
    }
}

/// A value that was written and committed is found and read back: if the
/// write at `index` is the last of a batch that writes its key, and its
/// value `value` was appended to a file that held `content`, then after
/// the commit the manifest has the value's location under the key, and
/// a clone of the file, however much was appended since, holds `value`
/// at that location.
pub proof fn law_round_trip(
    manifest: Map<Seq<u8>, Location>,
    writes: Seq<PendingWriteView>,
    index: int,
    content: Seq<u8>,
    value: Seq<u8>,
    appended_since: Seq<u8>,
)
    requires
        last_write_of(writes, writes.len() as int, writes[index].key, index),
        writes[index].location.offset == content.len(),
        writes[index].location.length == value.len(),
    ensures
        manifest_after(manifest, writes).contains_key(writes[index].key),
        manifest_after(manifest, writes)[writes[index].key] == writes[index].location,
        window(
            content + value + appended_since,
            writes[index].location.offset as int,
            writes[index].location.length as int,
        ) == value,
{
    let key = writes[index].key;
    assert(writes.take(writes.len() as int) =~= writes);
    lemma_written_key_is_there(manifest, writes, index);
    lemma_rows_after(manifest, writes, writes.len() as int, key);
    let after = manifest_after(manifest, writes);
    if manifest.contains_key(key) && after[key] == manifest[key] && forall|i: int|
        0 <= i < writes.len() ==> (#[trigger] writes[i]).key != key {
        assert(writes[index].key != key);
    } else {
        let other = choose|other: int| #[trigger]
            last_write_of(writes, writes.len() as int, key, other) && after[key]
                == writes[other].location;
        if other < index {
            assert(writes[index].key != key);
        } else if index < other {
            assert(writes[other].key != key);
        }
    }
    assert(window(
        content + value + appended_since,
        writes[index].location.offset as int,
        writes[index].location.length as int,
    ) =~= value);
}

/// A key that a batch writes has a row after the commit.
pub proof fn lemma_written_key_is_there(
    manifest: Map<Seq<u8>, Location>,
    writes: Seq<PendingWriteView>,
    index: int,
)
    requires
        0 <= index < writes.len(),
    ensures
        manifest_after(manifest, writes).contains_key(writes[index].key),
    decreases writes.len(),
{
    if index < writes.len() - 1 {
        lemma_written_key_is_there(manifest, writes.drop_last(), index);
    }
}

/// A key that is written again reads as its new value, and a snapshot
/// that was taken in between reads the old one. After a commit that
/// wrote `first` under `key` and a second commit that wrote `second`
/// under it, the manifest has `second` under `key`, and the row that the
/// second commit deleted, whose bytes are reclaimed, is `first`. A
/// snapshot with a clone that was made after the first commit, of a file
/// to which the first value `value` was appended at `first`, reads
/// `value` there: the second commit and the reclaiming change the
/// manifest and the value file, and the clone is neither.
pub proof fn law_overwrite_visibility(
    manifest: Map<Seq<u8>, Location>,
    key: Seq<u8>,
    first: Location,
    second: Location,
    content: Seq<u8>,
    value: Seq<u8>,
    appended_since: Seq<u8>,
)
    requires
        first.offset == content.len(),
        first.length == value.len(),
    ensures
        ({
            let once = manifest_after(manifest, seq![PendingWriteView { key, location: first }]);
            let again = seq![PendingWriteView { key, location: second }];
            let clone = content + value + appended_since;
            &&& once.contains_key(key) && once[key] == first
            &&& manifest_after(once, again).contains_key(key)
            &&& manifest_after(once, again)[key] == second
            &&& row_deleted_by(once, again, 0) == Some(first)
            &&& window(clone, first.offset as int, first.length as int) == value
        }),
{
    let write_first = seq![PendingWriteView { key, location: first }];
    let again = seq![PendingWriteView { key, location: second }];
    reveal_with_fuel(manifest_after, 3);
    assert(write_first.drop_last() =~= Seq::<PendingWriteView>::empty());
    assert(again.drop_last() =~= Seq::<PendingWriteView>::empty());
    assert(again.take(0) =~= Seq::<PendingWriteView>::empty());
    assert(window(content + value + appended_since, first.offset as int, first.length as int)
        =~= value);
}

/// Space is reclaimed only from values that are dead: if no two values
/// share a byte, then the row that a write of a commit deletes shares no
/// byte with any row that the manifest has after the commit.
pub proof fn law_superseded_rows_are_dead(
    manifest: Map<Seq<u8>, Location>,
    writes: Seq<PendingWriteView>,
    index: int,
    key: Seq<u8>,
)
    requires
        values_apart(manifest, writes),
        0 <= index < writes.len(),
        row_deleted_by(manifest, writes, index) is Some,
        manifest_after(manifest, writes).contains_key(key),
    ensures
        apart(row_deleted_by(manifest, writes, index)->0, manifest_after(manifest, writes)[key]),
{
    let deleted = row_deleted_by(manifest, writes, index)->0;
    let written = writes[index].key;
    let before = manifest_after(manifest, writes.take(index));
    let after = manifest_after(manifest, writes);
    assert(writes.take(writes.len() as int) =~= writes);
    lemma_rows_after(manifest, writes, index, written);
    lemma_rows_after(manifest, writes, writes.len() as int, key);
    let deleted_is_old = manifest.contains_key(written) && before[written] == manifest[written]
        && forall|i: int| 0 <= i < index ==> (#[trigger] writes[i]).key != written;
    let kept_is_old = manifest.contains_key(key) && after[key] == manifest[key] && forall|i: int|
        0 <= i < writes.len() ==> (#[trigger] writes[i]).key != key;
    if kept_is_old {
        assert(writes[index].key != key);
        if deleted_is_old {
            assert(apart(manifest[written], manifest[key]));
        } else {
            let from = choose|from: int| #[trigger]
                last_write_of(writes, index, written, from) && before[written]
                    == writes[from].location;
            assert(apart(writes[from].location, manifest[key]));
        }
    } else {
        let last = choose|last: int| #[trigger]
            last_write_of(writes, writes.len() as int, key, last) && after[key]
                == writes[last].location;
        if deleted_is_old {
            assert(apart(writes[last].location, manifest[written]));
        } else {
            let from = choose|from: int| #[trigger]
                last_write_of(writes, index, written, from) && before[written]
                    == writes[from].location;
            if from == last {
                assert(key == written);
                assert(writes[index].key != key);
            }
            assert(apart(writes[from].location, writes[last].location));
        }
    }
}

/// Whether `deleted` is what the manifest answers to the deletions of
/// the commit of `writes`: for each write, the row that its key had when
/// the write was made, if it had one.
pub open spec fn answers_match(
    manifest: Map<Seq<u8>, Location>,
    writes: Seq<PendingWriteView>,
    deleted: Seq<Option<Value>>,
) -> bool {
    &&& deleted.len() == writes.len()
    &&& forall|i: int|
        0 <= i < writes.len() ==> match #[trigger] deleted[i] {
            Some(value) => row_deleted_by(manifest, writes, i) == Some(value@.location()),
            None => row_deleted_by(manifest, writes, i) is None,
        }
}

/// Each row that a commit hands over to be reclaimed is a row that the
/// manifest gave as deleted.
pub proof fn lemma_superseded_was_deleted(deleted: Seq<Option<Value>>, index: int)
    requires
        0 <= index < superseded(deleted).len(),
    ensures
        exists|i: int|
            0 <= i < deleted.len() && (#[trigger] deleted[i]) is Some && deleted[i]->0@
                == superseded(deleted)[index],
    decreases deleted.len(),
{
    let rest = deleted.drop_last();
    if deleted.last() is Some && index == superseded(deleted).len() - 1 {
        assert(deleted[deleted.len() - 1] is Some);
    } else {
        lemma_superseded_was_deleted(rest, index);
        let i = choose|i: int|
            0 <= i < rest.len() && (#[trigger] rest[i]) is Some && rest[i]->0@ == superseded(
                rest,
            )[index];
        assert(deleted[i] == rest[i]);
    }
}

/// What a commit hands over to be reclaimed is dead: if no two values
/// share a byte and the manifest answered the deletions truly, then no
/// row that the commit hands over shares a byte with any row that the
/// manifest has after the commit.
pub proof fn law_reclaimed_rows_are_dead(
    manifest: Map<Seq<u8>, Location>,
    writes: Seq<PendingWriteView>,
    deleted: Seq<Option<Value>>,
    index: int,
    key: Seq<u8>,
)
    requires
        values_apart(manifest, writes),
        answers_match(manifest, writes, deleted),
        0 <= index < superseded(deleted).len(),
        manifest_after(manifest, writes).contains_key(key),
    ensures
        apart(superseded(deleted)[index].location(), manifest_after(manifest, writes)[key]),
{
    lemma_superseded_was_deleted(deleted, index);
    let i = choose|i: int|
        0 <= i < deleted.len() && (#[trigger] deleted[i]) is Some && deleted[i]->0@ == superseded(
            deleted,
        )[index];
    law_superseded_rows_are_dead(manifest, writes, i, key);
}

/// Whether the answers `facts` are true of a value file in which the
/// values at `rows` are referenced: the reported end of the value before
/// the range to free is at or behind the end of every value that ends at
/// or before the range, and the reported start of the value behind the
/// range is at or before the start of every value that starts at or
/// behind it.
pub open spec fn answers_true_of(
    rows: Seq<Location>,
    opts: PunchValueOptions,
    facts: PunchFacts,
) -> bool {
    &&& forall|i: int|
        0 <= i < rows.len() && (#[trigger] rows[i]).end() <= opts.offset ==> rows[i].end()
            <= facts.last_end_offset
    &&& forall|i: int|
        0 <= i < rows.len() && (#[trigger] rows[i]).offset >= opts.end() ==> (
        facts.next_value_offset matches Some(next) && next <= rows[i].offset)
}

/// Reclaiming the range of a dead value touches no value that is
/// referenced: if each value at `rows` lies before or behind the range to
/// free, and the manifest's answers are true of them, then whatever is
/// planned for the file, a hole, a cut or its removal, gives up no byte
/// of any of them.
pub proof fn law_punch_spares_live_rows(
    opts: PunchValueOptions,
    facts: PunchFacts,
    rows: Seq<Location>,
    index: int,
    byte: int,
)
    requires
        opts.block_size > 0,
        punch_plan(opts, facts) is Ok,
        forall|i: int|
            0 <= i < rows.len() ==> (#[trigger] rows[i]).end() <= opts.offset || opts.end()
                <= rows[i].offset,
        answers_true_of(rows, opts, facts),
        0 <= index < rows.len(),
        rows[index].offset <= byte < rows[index].end(),
    ensures
        !freed_bytes(punch_plan(opts, facts)->Ok_0).contains(byte),
{
    let live = Set::new(
        |at: int| exists|i: int| 0 <= i < rows.len() && (#[trigger] rows[i]).offset <= at < rows[i].end(),
    );
    assert(live.contains(byte));
    assert forall|at: int| live.contains(at) implies !(opts.offset <= at < opts.end()) && (at
        < opts.offset ==> at < facts.last_end_offset) && (at >= opts.end() ==> (
    facts.next_value_offset matches Some(next) && at >= next)) by {
        let i = choose|i: int| 0 <= i < rows.len() && (#[trigger] rows[i]).offset <= at < rows[i].end();
        assert(rows[i].end() <= opts.offset || opts.end() <= rows[i].offset);
    }
    assert(facts_describe(opts, facts, live));
    law_punch_spares_live_values(opts, facts, live);
}

} // verus!
