//! Secondary indices: for each key, the identifiers filed under it, in the order in
//! which they were filed.

use vstd::prelude::*;
use crate::types::Address;

verus! {

/// What an index can be keyed by: a value whose equality can be decided and agrees
/// with equality of views.
pub trait Key: View + Sized {
    /// Whether two keys are the same key.
    fn same_key(&self, other: &Self) -> (equal: bool)
        ensures
            equal == (self@ == other@),
    ;

    /// A copy of this key.
    fn copy_key(&self) -> (copy: Self)
        ensures
            copy@ == self@,
    ;
}

impl Key for u64 {
    fn same_key(&self, other: &u64) -> (equal: bool) {
        *self == *other
    }

    fn copy_key(&self) -> (copy: u64) {
        *self
    }
}

impl Key for Address {
    fn same_key(&self, other: &Address) -> (equal: bool) {
        self.same(other)
    }

    fn copy_key(&self) -> (copy: Address) {
        self.clone()
    }
}

/// A key and the identifiers filed under it.
#[derive(Debug, PartialEq, Eq)]
pub struct IndexEntry<K> {
    pub key: K,
    pub ids: Vec<u64>,
}

/// An append-only index from keys to ordered lists of identifiers.
///
/// Identifiers are only ever added at the end of a key's list. A key under which
/// nothing was filed has the empty list. Where the entries name a key more than once,
/// the entry nearest the end stands for it.
#[derive(Debug, PartialEq, Eq)]
pub struct SecondaryIndex<K> {
    pub entries: Vec<IndexEntry<K>>,
}

/// The map that a sequence of entries stands for.
pub open spec fn entries_map<K: Key>(entries: Seq<IndexEntry<K>>) -> Map<K::V, Seq<u64>>
    decreases entries.len(),
{
    if entries.len() == 0 {
        Map::empty()
    } else {
        entries_map(entries.drop_last()).insert(entries.last().key@, entries.last().ids@)
    }
}

impl<K: Key> View for SecondaryIndex<K> {
    type V = Map<K::V, Seq<u64>>;

    open spec fn view(&self) -> Map<K::V, Seq<u64>> {
        entries_map(self.entries@)
    }
}

/// The list filed under `key` in `map`: empty where the key is absent.
pub open spec fn filed_under<V>(map: Map<V, Seq<u64>>, key: V) -> Seq<u64> {
    if map.contains_key(key) {
        map[key]
    } else {
        Seq::empty()
    }
}

/// No entry from position `from` on has the key `key`.
pub open spec fn absent_from<K: Key>(entries: Seq<IndexEntry<K>>, key: K::V, from: int) -> bool {
    forall|j: int| from <= j < entries.len() ==> (#[trigger] entries[j]).key@ != key
}

proof fn lemma_absent<K: Key>(entries: Seq<IndexEntry<K>>, key: K::V)
    requires
        absent_from(entries, key, 0),
    ensures
        !entries_map(entries).contains_key(key),
    decreases entries.len(),
{
    if entries.len() > 0 {
        assert(entries.last() == entries[entries.len() - 1]);
        assert forall|j: int| 0 <= j < entries.drop_last().len() implies (#[trigger] entries.drop_last()[j]).key@
            != key by {
            assert(entries.drop_last()[j] == entries[j]);
        }
        lemma_absent(entries.drop_last(), key);
    }
}

proof fn lemma_found<K: Key>(entries: Seq<IndexEntry<K>>, key: K::V, at: int)
    requires
        0 <= at < entries.len(),
        entries[at].key@ == key,
        absent_from(entries, key, at + 1),
    ensures
        entries_map(entries).contains_key(key),
        entries_map(entries)[key] == entries[at].ids@,
    decreases entries.len(),
{
    if at < entries.len() - 1 {
        assert(entries.last() == entries[entries.len() - 1]);
        assert(entries.drop_last()[at] == entries[at]);
        assert forall|j: int| at + 1 <= j < entries.drop_last().len() implies (#[trigger] entries.drop_last()[j]).key@
            != key by {
            assert(entries.drop_last()[j] == entries[j]);
        }
        lemma_found(entries.drop_last(), key, at);
    }
}

proof fn lemma_refiled<K: Key>(
    entries: Seq<IndexEntry<K>>,
    key: K::V,
    at: int,
    entry: IndexEntry<K>,
)
    requires
        0 <= at < entries.len(),
        entries[at].key@ == key,
        entry.key@ == key,
        absent_from(entries, key, at + 1),
    ensures
        entries_map(entries.update(at, entry)) == entries_map(entries).insert(key, entry.ids@),
    decreases entries.len(),
{
    let updated = entries.update(at, entry);
    if at == entries.len() - 1 {
        assert(updated.drop_last() =~= entries.drop_last());
        assert(entries_map(updated) =~= entries_map(entries).insert(key, entry.ids@));
    } else {
        assert(entries.last() == entries[entries.len() - 1]);
        assert(updated.last() == entries.last());
        assert(updated.drop_last() =~= entries.drop_last().update(at, entry));
        assert(entries.drop_last()[at] == entries[at]);
        assert forall|j: int| at + 1 <= j < entries.drop_last().len() implies (#[trigger] entries.drop_last()[j]).key@
            != key by {
            assert(entries.drop_last()[j] == entries[j]);
        }
        lemma_refiled(entries.drop_last(), key, at, entry);
        assert(entries_map(updated) =~= entries_map(entries).insert(key, entry.ids@));
    }
}

proof fn lemma_same_entries<K: Key>(one: Seq<IndexEntry<K>>, other: Seq<IndexEntry<K>>)
    requires
        one.len() == other.len(),
        forall|i: int|
            0 <= i < one.len() ==> (#[trigger] one[i]).key@ == other[i].key@ && one[i].ids@
                == other[i].ids@,
    ensures
        entries_map(one) == entries_map(other),
    decreases one.len(),
{
    if one.len() > 0 {
        assert forall|i: int| 0 <= i < one.drop_last().len() implies (#[trigger] one.drop_last()[i]).key@
            == other.drop_last()[i].key@ && one.drop_last()[i].ids@ == other.drop_last()[i].ids@ by {
            assert(one.drop_last()[i] == one[i]);
            assert(other.drop_last()[i] == other[i]);
        }
        lemma_same_entries(one.drop_last(), other.drop_last());
        assert(one.last() == one[one.len() - 1]);
        assert(other.last() == other[other.len() - 1]);
    }
}

impl<K: Key> Clone for IndexEntry<K> {
    fn clone(&self) -> (copy: Self)
        ensures
            copy.key@ == self.key@,
            copy.ids@ == self.ids@,
    {
        let ids = self.ids.clone();
        assert(ids@ =~= self.ids@);
        IndexEntry { key: self.key.copy_key(), ids }
    }
}

impl<K: Key> Clone for SecondaryIndex<K> {
    fn clone(&self) -> (copy: Self)
        ensures
            copy@ == self@,
    {
        let mut entries: Vec<IndexEntry<K>> = Vec::new();
        let mut i: usize = 0;
        while i < self.entries.len()
            invariant
                i <= self.entries.len(),
                entries.len() == i,
                forall|j: int|
                    0 <= j < i ==> (#[trigger] entries[j]).key@ == self.entries[j].key@
                        && entries[j].ids@ == self.entries[j].ids@,
            decreases self.entries.len() - i,
        {
            entries.push(self.entries[i].clone());
            i = i + 1;
        }
        proof {
            lemma_same_entries(entries@, self.entries@);
        }
        SecondaryIndex { entries }
    }
}

impl<K: Key> SecondaryIndex<K> {
    /// An index with nothing filed.
    pub fn new() -> (index: Self)
        ensures
            index@ == Map::<K::V, Seq<u64>>::empty(),
    {
        SecondaryIndex { entries: Vec::new() }
    }

    /// The position of the entry that stands for `key`, if any does.
    pub fn position(&self, key: &K) -> (found: Option<usize>)
        ensures
            match found {
                Some(at) => {
                    &&& at < self.entries.len()
                    &&& self.entries[at as int].key@ == key@
                    &&& absent_from(self.entries@, key@, at + 1)
                    &&& self@.contains_key(key@)
                    &&& self@[key@] == self.entries[at as int].ids@
                },
                None => !self@.contains_key(key@),
            },
    {
        let mut at: usize = self.entries.len();
        while at > 0
            invariant
                at <= self.entries.len(),
                absent_from(self.entries@, key@, at as int),
            decreases at,
        {
            at = at - 1;
            if self.entries[at].key.same_key(key) {
                proof {
                    lemma_found(self.entries@, key@, at as int);
                }
                return Some(at);
            }
        }
        proof {
            lemma_absent(self.entries@, key@);
        }
        None
    }

    /// The list filed under `key`, if anything was filed there.
    pub fn get(&self, key: &K) -> (list: Option<&Vec<u64>>)
        ensures
            match list {
                Some(ids) => self@.contains_key(key@) && ids@ == self@[key@],
                None => !self@.contains_key(key@),
            },
    {
        match self.position(key) {
            Some(at) => Some(&self.entries[at].ids),
            None => None,
        }
    }

    /// The identifiers filed under `key`, oldest first; empty if there are none.
    pub fn ids(&self, key: &K) -> (ids: Vec<u64>)
        ensures
            ids@ == filed_under(self@, key@),
    {
        match self.get(key) {
            Some(list) => {
                let ids = list.clone();
                assert(ids@ =~= list@);
                ids
            },
            None => Vec::new(),
        }
    }

    /// Files `id` under `key`, after everything filed there before.
    pub fn append(&mut self, key: K, id: u64)
        ensures
            final(self)@ == old(self)@.insert(key@, filed_under(old(self)@, key@).push(id)),
    {
        match self.position(&key) {
            Some(at) => {
                let ghost before = self.entries@;
                self.entries[at].ids.push(id);
                proof {
                    lemma_refiled(before, key@, at as int, self.entries[at as int]);
                    assert(self.entries@ =~= before.update(at as int, self.entries[at as int]));
                }
            },
            None => {
                let mut ids: Vec<u64> = Vec::new();
                ids.push(id);
                let ghost before = self.entries@;
                self.entries.push(IndexEntry { key, ids });
                proof {
                    assert(self.entries@.drop_last() =~= before);
                    assert(ids@ =~= Seq::<u64>::empty().push(id));
                }
            },
        }
    }
}

} // verus!
