//! A table keyed by value file.

use vstd::prelude::*;
use crate::file_id::FileId;

verus! {

/// A table that holds one entry for each of a set of value files. No file
/// occurs twice, and the entries keep the order in which their files came.
#[derive(Debug)]
pub struct FileTable<T> {
    entries: Vec<(FileId, T)>,
}

/// In a sequence without duplicates, an element is found where it stands.
pub proof fn lemma_index_of_unique(keys: Seq<Seq<u8>>, i: int)
    requires
        keys.no_duplicates(),
        0 <= i < keys.len(),
    ensures
        keys.contains(keys[i]),
        keys.index_of(keys[i]) == i,
{
    let found = keys.index_of(keys[i]);
    assert(0 <= found < keys.len() && keys[found] == keys[i]);
}

/// The table that reads `values[i]` under `keys[i]`.
pub open spec fn table_of<T>(keys: Seq<Seq<u8>>, values: Seq<T>) -> Map<Seq<u8>, T> {
    Map::new(|key: Seq<u8>| keys.contains(key), |key: Seq<u8>| values[keys.index_of(key)])
}

/// A table reads each of its entries under the entry's key.
pub proof fn lemma_files_by_index<T>(keys: Seq<Seq<u8>>, values: Seq<T>)
    requires
        keys.no_duplicates(),
        keys.len() == values.len(),
    ensures
        forall|j: int|
            0 <= j < keys.len() ==> #[trigger] table_of(keys, values).contains_key(keys[j])
                && table_of(keys, values)[keys[j]] == values[j],
{
    assert forall|j: int| 0 <= j < keys.len() implies #[trigger] table_of(
        keys,
        values,
    ).contains_key(keys[j]) && table_of(keys, values)[keys[j]] == values[j] by {
        lemma_index_of_unique(keys, j);
    }
}

/// A new last entry is an insertion.
pub proof fn lemma_table_push<T>(keys: Seq<Seq<u8>>, values: Seq<T>, key: Seq<u8>, value: T)
    requires
        keys.no_duplicates(),
        keys.len() == values.len(),
        !keys.contains(key),
    ensures
        keys.push(key).no_duplicates(),
        table_of(keys.push(key), values.push(value)) == table_of(keys, values).insert(key, value),
{
    let keys2 = keys.push(key);
    let values2 = values.push(value);
    assert forall|i: int, j: int| 0 <= i < keys2.len() && 0 <= j < keys2.len() && i != j implies keys2[i]
        != keys2[j] by {
        if i < keys.len() {
            assert(keys.contains(keys[i]));
        }
        if j < keys.len() {
            assert(keys.contains(keys[j]));
        }
    }
    assert forall|k: Seq<u8>| keys2.contains(k) <==> (k == key || keys.contains(k)) by {
        if keys.contains(k) {
            let i = keys.index_of(k);
            assert(keys2[i] == k);
        }
        if k == key {
            assert(keys2[keys.len() as int] == k);
        }
        if keys2.contains(k) {
            let i = keys2.index_of(k);
            if i < keys.len() {
                assert(keys[i] == k);
            }
        }
    }
    assert forall|k: Seq<u8>| keys2.contains(k) implies #[trigger] table_of(keys2, values2)[k]
        == table_of(keys, values).insert(key, value)[k] by {
        let i = keys2.index_of(k);
        lemma_index_of_unique(keys2, i);
        if i < keys.len() {
            lemma_index_of_unique(keys, i);
        }
    }
    assert(table_of(keys2, values2) =~= table_of(keys, values).insert(key, value));
}

/// A new value in an entry's place is an insertion under the entry's key.
pub proof fn lemma_table_update<T>(keys: Seq<Seq<u8>>, values: Seq<T>, at: int, value: T)
    requires
        keys.no_duplicates(),
        keys.len() == values.len(),
        0 <= at < keys.len(),
    ensures
        table_of(keys, values.update(at, value)) == table_of(keys, values).insert(keys[at], value),
{
    let values2 = values.update(at, value);
    lemma_index_of_unique(keys, at);
    assert forall|k: Seq<u8>| keys.contains(k) implies #[trigger] table_of(keys, values2)[k]
        == table_of(keys, values).insert(keys[at], value)[k] by {
        let i = keys.index_of(k);
        lemma_index_of_unique(keys, i);
    }
    assert(table_of(keys, values2) =~= table_of(keys, values).insert(keys[at], value));
}

/// Taking an entry out is a removal of its key.
pub proof fn lemma_table_remove<T>(keys: Seq<Seq<u8>>, values: Seq<T>, at: int)
    requires
        keys.no_duplicates(),
        keys.len() == values.len(),
        0 <= at < keys.len(),
    ensures
        keys.remove(at).no_duplicates(),
        !keys.remove(at).contains(keys[at]),
        table_of(keys.remove(at), values.remove(at)) == table_of(keys, values).remove(keys[at]),
{
    let keys2 = keys.remove(at);
    let values2 = values.remove(at);
    assert forall|i: int, j: int| 0 <= i < keys2.len() && 0 <= j < keys2.len() && i != j implies keys2[i]
        != keys2[j] by {
        let oi = if i < at { i } else { i + 1 };
        let oj = if j < at { j } else { j + 1 };
        assert(keys2[i] == keys[oi] && keys2[j] == keys[oj]);
    }
    assert forall|k: Seq<u8>| keys2.contains(k) <==> (k != keys[at] && keys.contains(k)) by {
        if keys2.contains(k) {
            let i = keys2.index_of(k);
            let oi = if i < at { i } else { i + 1 };
            assert(keys[oi] == k);
        }
        if k != keys[at] && keys.contains(k) {
            let oi = keys.index_of(k);
            let i = if oi < at { oi } else { oi - 1 };
            assert(keys2[i] == k);
        }
    }
    assert forall|k: Seq<u8>| keys2.contains(k) implies #[trigger] table_of(keys2, values2)[k]
        == table_of(keys, values).remove(keys[at])[k] by {
        let i = keys2.index_of(k);
        lemma_index_of_unique(keys2, i);
        let oi = if i < at { i } else { i + 1 };
        lemma_index_of_unique(keys, oi);
    }
    assert(table_of(keys2, values2) =~= table_of(keys, values).remove(keys[at]));
}

/// The files of a sequence of entries.
spec fn keys_of<T>(entries: Seq<(FileId, T)>) -> Seq<Seq<u8>> {
    Seq::new(entries.len(), |i: int| entries[i].0@)
}

/// What a sequence of entries holds.
spec fn values_of<T>(entries: Seq<(FileId, T)>) -> Seq<T> {
    Seq::new(entries.len(), |i: int| entries[i].1)
}

impl<T> FileTable<T> {
    #[verifier::type_invariant]
    spec fn well_formed(self) -> bool {
        self.keys().no_duplicates()
    }

    /// The files of the entries, in the table's order.
    pub closed spec fn keys(self) -> Seq<Seq<u8>> {
        keys_of(self.entries@)
    }

    /// What the entries hold, in the table's order.
    pub closed spec fn values(self) -> Seq<T> {
        values_of(self.entries@)
    }

    /// The table as a map from file to what it holds for the file.
    pub open spec fn view(self) -> Map<Seq<u8>, T> {
        table_of(self.keys(), self.values())
    }

    /// An empty table.
    pub fn new() -> (table: FileTable<T>)
        ensures
            table.keys() == Seq::<Seq<u8>>::empty(),
            table.values() == Seq::<T>::empty(),
            table@ == Map::<Seq<u8>, T>::empty(),
    {
        let table = FileTable { entries: Vec::new() };
        assert(table.keys() =~= Seq::<Seq<u8>>::empty());
        assert(table.values() =~= Seq::<T>::empty());
        assert(table@ =~= Map::<Seq<u8>, T>::empty());
        table
    }

    /// The number of entries. No file has two of them.
    pub fn len(&self) -> (len: usize)
        ensures
            len == self.keys().len(),
            len == self.values().len(),
            self.keys().no_duplicates(),
    {
        proof {
            use_type_invariant(self);
        }
        self.entries.len()
    }

    /// The file of the entry at `index`.
    pub fn key_at(&self, index: usize) -> (id: &FileId)
        requires
            index < self.keys().len(),
        ensures
            id@ == self.keys()[index as int],
    {
        &self.entries[index].0
    }

    /// What the entry at `index` holds.
    pub fn value_at(&self, index: usize) -> (item: &T)
        requires
            index < self.values().len(),
        ensures
            *item == self.values()[index as int],
    {
        &self.entries[index].1
    }

    /// Where the entry of the file `id` stands.
    pub fn position(&self, id: &FileId) -> (found: Option<usize>)
        ensures
            found is Some <==> self.keys().contains(id@),
            found matches Some(index) ==> index < self.keys().len() && self.keys()[index as int]
                == id@ && self.keys().index_of(id@) == index,
    {
        proof {
            use_type_invariant(self);
        }
        let mut i: usize = 0;
        while i < self.entries.len()
            invariant
                i <= self.entries.len(),
                self.keys().len() == self.entries.len(),
                self.keys().no_duplicates(),
                forall|j: int| 0 <= j < i ==> self.keys()[j] != id@,
            decreases self.entries.len() - i,
        {
            if self.entries[i].0 == *id {
                proof {
                    lemma_index_of_unique(self.keys(), i as int);
                }
                return Some(i);
            }
            i += 1;
        }
        None
    }

    /// What the table holds for the file `id`.
    pub fn get(&self, id: &FileId) -> (item: Option<&T>)
        ensures
            item is Some <==> self@.contains_key(id@),
            item matches Some(held) ==> *held == self@[id@],
    {
        match self.position(id) {
            Some(index) => Some(&self.entries[index].1),
            None => None,
        }
    }

    /// Lets the table hold `item` for the file `id`, and gives back what it
    /// held for that file before. An entry that is replaced keeps its
    /// place; a new one comes last.
    pub fn insert(&mut self, id: FileId, item: T) -> (replaced: Option<T>)
        ensures
            final(self)@ == old(self)@.insert(id@, item),
            replaced is Some <==> old(self)@.contains_key(id@),
            replaced matches Some(held) ==> held == old(self)@[id@],
            old(self).keys().contains(id@) ==> final(self).keys() == old(self).keys() && final(self).values()
                == old(self).values().update(old(self).keys().index_of(id@), item),
            !old(self).keys().contains(id@) ==> final(self).keys() == old(self).keys().push(id@)
                && final(self).values() == old(self).values().push(item),
    {
        proof {
            use_type_invariant(&*self);
        }
        let ghost keys = self.keys();
        let ghost values = self.values();
        let found = self.position(&id);
        let mut entries: Vec<(FileId, T)> = Vec::new();
        core::mem::swap(&mut entries, &mut self.entries);
        let replaced = match found {
            Some(index) => {
                proof {
                    lemma_table_update(keys, values, index as int, item);
                }
                entries.push((id, item));
                let held = entries.swap_remove(index);
                Some(held.1)
            },
            None => {
                proof {
                    lemma_table_push(keys, values, id@, item);
                }
                entries.push((id, item));
                None
            },
        };
        proof {
            if found is Some {
                assert(keys_of(entries@) =~= keys);
                assert(values_of(entries@) =~= values.update(found->0 as int, item));
            } else {
                assert(keys_of(entries@) =~= keys.push(id@));
                assert(values_of(entries@) =~= values.push(item));
            }
        }
        self.entries = entries;
        replaced
    }

    /// Takes out what the table holds for the file `id`. The other
    /// entries keep their order.
    pub fn remove(&mut self, id: &FileId) -> (removed: Option<T>)
        ensures
            final(self)@ == old(self)@.remove(id@),
            removed is Some <==> old(self)@.contains_key(id@),
            removed matches Some(held) ==> held == old(self)@[id@],
            old(self).keys().contains(id@) ==> final(self).keys() == old(self).keys().remove(
                old(self).keys().index_of(id@),
            ) && final(self).values() == old(self).values().remove(
                old(self).keys().index_of(id@),
            ),
            !old(self).keys().contains(id@) ==> final(self).keys() == old(self).keys() && final(self).values()
                == old(self).values(),
    {
        proof {
            use_type_invariant(&*self);
        }
        let ghost keys = self.keys();
        let ghost values = self.values();
        match self.position(id) {
            Some(index) => {
                proof {
                    lemma_table_remove(keys, values, index as int);
                }
                let mut entries: Vec<(FileId, T)> = Vec::new();
                core::mem::swap(&mut entries, &mut self.entries);
                let held = entries.remove(index);
                assert(keys_of(entries@) =~= keys.remove(index as int));
                assert(values_of(entries@) =~= values.remove(index as int));
                self.entries = entries;
                Some(held.1)
            },
            None => {
                assert(self@.remove(id@) =~= self@);
                None
            },
        }
    }

    /// Takes the last entry out.
    pub fn pop(&mut self) -> (popped: Option<(FileId, T)>)
        ensures
            popped is None <==> old(self).keys().len() == 0,
            popped is None ==> final(self).keys() == old(self).keys() && final(self).values()
                == old(self).values(),
            popped matches Some((id, item)) ==> {
                &&& id@ == old(self).keys().last()
                &&& item == old(self).values().last()
                &&& old(self)@.contains_key(id@)
                &&& old(self)@[id@] == item
                &&& final(self).keys() == old(self).keys().drop_last()
                &&& final(self).values() == old(self).values().drop_last()
                &&& final(self)@ == old(self)@.remove(id@)
            },
    {
        proof {
            use_type_invariant(&*self);
        }
        let ghost keys = self.keys();
        let ghost values = self.values();
        if self.entries.len() == 0 {
            return None;
        }
        proof {
            lemma_table_remove(keys, values, keys.len() - 1);
            lemma_index_of_unique(keys, keys.len() - 1);
            assert(keys.remove(keys.len() - 1) =~= keys.drop_last());
            assert(values.remove(values.len() - 1) =~= values.drop_last());
        }
        let mut entries: Vec<(FileId, T)> = Vec::new();
        core::mem::swap(&mut entries, &mut self.entries);
        let popped = entries.pop();
        assert(keys_of(entries@) =~= keys.drop_last());
        assert(values_of(entries@) =~= values.drop_last());
        self.entries = entries;
        popped
    }
}

} // verus!
