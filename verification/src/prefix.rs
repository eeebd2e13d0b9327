//! Listing the keys that start with a prefix.
//!
//! The manifest keeps its keys in order, byte by byte, and answers a scan
//! of a range of keys. The keys that start with a prefix lie in one
//! range: from the prefix itself up to, and without, the prefix with one
//! added to it as a number.

use vstd::prelude::*;
use crate::convert::{all_bytes_max, carry_stops_at, inc_big_endian_array};
use crate::error::Error;
use crate::value::{Item, ItemView};

verus! {

/// Whether the key `left` comes before the key `right` in the order of
/// the manifest: at the first byte in which they differ `left` has the
/// smaller one, or `left` is `right` cut short.
pub open spec fn key_lt(left: Seq<u8>, right: Seq<u8>) -> bool
    decreases left.len(),
{
    if right.len() == 0 {
        false
    } else if left.len() == 0 {
        true
    } else if left[0] != right[0] {
        left[0] < right[0]
    } else {
        key_lt(left.drop_first(), right.drop_first())
    }
}

/// Whether the key `left` is `right` or comes before it.
pub open spec fn key_le(left: Seq<u8>, right: Seq<u8>) -> bool {
    left == right || key_lt(left, right)
}

/// Whether `key` lies in the range that starts with `start` and ends
/// before `end`, or has no end.
pub open spec fn key_in_range(key: Seq<u8>, start: Seq<u8>, end: Option<Seq<u8>>) -> bool {
    &&& key_le(start, key)
    &&& end matches Some(end) ==> key_lt(key, end)
}

/// A range of keys: from `start` on, and up to `end` without it if there
/// is an end.
#[derive(Debug)]
pub struct KeyRange {
    pub start: Vec<u8>,
    pub end: Option<Vec<u8>>,
}

/// Whether `end` is the end of the range of the keys that start with
/// `prefix`: the prefix with one added to it where that is a number of
/// as many bytes, and no end where it is not.
pub open spec fn ends_prefix_range(prefix: Seq<u8>, end: Option<Seq<u8>>) -> bool {
    if end is Some {
        exists|at: int| #[trigger] carry_stops_at(prefix, end->0, at)
    } else {
        all_bytes_max(prefix)
    }
}

/// The range of keys to scan for the keys that start with `prefix`.
pub fn prefix_range(prefix: &[u8]) -> (range: KeyRange)
    ensures
        range.start@ == prefix@,
        range.end is None <==> all_bytes_max(prefix@),
        ends_prefix_range(
            prefix@,
            match range.end {
                Some(end) => Some(end@),
                None => None,
            },
        ),
{
    let start = vstd::slice::slice_to_vec(prefix);
    let mut end = vstd::slice::slice_to_vec(prefix);
    if inc_big_endian_array(end.as_mut_slice()) {
        proof {
            let at = choose|at: int| #[trigger] carry_stops_at(prefix@, end@, at);
            let range_end = Some(end@);
            assert(carry_stops_at(prefix@, range_end->0, at));
        }
        KeyRange { start, end: Some(end) }
    } else {
        KeyRange { start, end: None }
    }
}

/// A key comes at or after each of its prefixes.
pub proof fn lemma_prefix_comes_first(prefix: Seq<u8>, key: Seq<u8>)
    requires
        prefix.is_prefix_of(key),
    ensures
        key_le(prefix, key),
    decreases prefix.len(),
{
    if prefix.len() == 0 {
        if key.len() == 0 {
            assert(prefix =~= key);
        }
    } else {
        assert(prefix[0] == key.subrange(0, prefix.len() as int)[0]);
        assert(prefix.drop_first() =~= key.drop_first().subrange(0, prefix.len() - 1));
        lemma_prefix_comes_first(prefix.drop_first(), key.drop_first());
        if prefix.drop_first() == key.drop_first() {
            assert(prefix =~= key);
        }
    }
}

/// A key that starts with `prefix` comes before the prefix after a carry.
pub proof fn lemma_prefix_before_carry(prefix: Seq<u8>, end: Seq<u8>, at: int, key: Seq<u8>)
    requires
        prefix.is_prefix_of(key),
        carry_stops_at(prefix, end, at),
    ensures
        key_lt(key, end),
    decreases at,
{
    assert(prefix[0] == key.subrange(0, prefix.len() as int)[0]);
    if at > 0 {
        assert(prefix.drop_first() =~= key.drop_first().subrange(0, prefix.len() - 1));
        lemma_prefix_before_carry(prefix.drop_first(), end.drop_first(), at - 1, key.drop_first());
    }
}

/// The scan of the range of a prefix misses no key: every key that
/// starts with `prefix` lies in the range that [`prefix_range`] gives.
pub proof fn law_prefix_keys_in_range(prefix: Seq<u8>, end: Option<Seq<u8>>, key: Seq<u8>)
    requires
        ends_prefix_range(prefix, end),
        prefix.is_prefix_of(key),
    ensures
        key_in_range(key, prefix, end),
{
    lemma_prefix_comes_first(prefix, key);
    if let Some(end) = end {
        let at = choose|at: int| #[trigger] carry_stops_at(prefix, end, at);
        lemma_prefix_before_carry(prefix, end, at, key);
    }
}

/// The items of `items`, as contracts speak of them.
pub open spec fn items_of(items: Seq<Item>) -> Seq<ItemView> {
    items.map_values(|item: Item| item@)
}

/// Keeps the items of a scan whose keys start with `prefix`, in the
/// order of the scan.
pub fn items_with_prefix(prefix: &[u8], scanned: &Vec<Item>) -> (items: Vec<Item>)
    ensures
        items_of(items@) == items_of(scanned@).filter(
            |item: ItemView| prefix@.is_prefix_of(item.key),
        ),
{
    let ghost wanted = |item: ItemView| prefix@.is_prefix_of(item.key);
    let mut items: Vec<Item> = Vec::new();
    let mut i: usize = 0;
    assert(items_of(scanned@).take(0) =~= Seq::<ItemView>::empty());
    assert(items_of(items@) =~= Seq::<ItemView>::empty());
    while i < scanned.len()
        invariant
            i <= scanned@.len(),
            wanted == |item: ItemView| prefix@.is_prefix_of(item.key),
            items_of(items@) == items_of(scanned@).take(i as int).filter(wanted),
        decreases scanned@.len() - i,
    {
        let item = &scanned[i];
        proof {
            let upto = items_of(scanned@).take(i + 1);
            assert(upto.drop_last() =~= items_of(scanned@).take(i as int));
            assert(upto.last() == scanned@[i as int]@);
            reveal(Seq::filter);
        }
        let ghost before = items_of(items@);
        if crate::names::starts_with(item.key.as_slice(), prefix) {
            let kept = item.clone();
            items.push(kept);
            assert(items_of(items@) =~= before.push(scanned@[i as int]@));
        }
        i += 1;
    }
    assert(items_of(scanned@).take(scanned@.len() as int) =~= items_of(scanned@));
    items
}

/// Reads the answer of the manifest to a scan for the keys that start
/// with `prefix`: a failure is passed on, and of the items of a scan
/// those are kept whose keys start with `prefix`.
pub fn list_items(prefix: &[u8], scanned: Result<Vec<Item>, Error>) -> (items: Result<
    Vec<Item>,
    Error,
>)
    ensures
        scanned matches Err(error) ==> items is Err && items->Err_0 == error,
        scanned matches Ok(found) ==> items is Ok && items_of(items->Ok_0@) == items_of(
            found@,
        ).filter(|item: ItemView| prefix@.is_prefix_of(item.key)),
{
    match scanned {
        Ok(found) => Ok(items_with_prefix(prefix, &found)),
        Err(error) => Err(error),
    }
}

} // verus!
