//! A map for keys that are compared but not ordered: object identifiers, texts, paths.
use vstd::prelude::*;

use crate::git_store::wire::Oid;
use crate::rel_path::RelPath;
use crate::text::same_text;

verus! {

/// A key, and what it is compared by.
pub trait Key: Sized {
    type Id;

    spec fn id(self) -> Self::Id;

    fn same(&self, other: &Self) -> (same: bool)
        ensures
            same == (self.id() == other.id()),
    ;
}

impl Key for Oid {
    type Id = Oid;

    open spec fn id(self) -> Oid {
        self
    }

    fn same(&self, other: &Self) -> (same: bool) {
        *self == *other
    }
}

impl Key for Option<Oid> {
    type Id = Option<Oid>;

    open spec fn id(self) -> Option<Oid> {
        self
    }

    fn same(&self, other: &Self) -> (same: bool) {
        match (self, other) {
            (Some(a), Some(b)) => *a == *b,
            (None, None) => true,
            _ => false,
        }
    }
}

impl Key for String {
    type Id = Seq<char>;

    open spec fn id(self) -> Seq<char> {
        self@
    }

    fn same(&self, other: &Self) -> (same: bool) {
        same_text(self.as_str(), other.as_str())
    }
}

impl Key for RelPath {
    type Id = Seq<Seq<char>>;

    open spec fn id(self) -> Seq<Seq<char>> {
        self@
    }

    fn same(&self, other: &Self) -> (same: bool) {
        self.same_as(other)
    }
}

/// The value of the last entry with this key.
pub open spec fn lookup<K: Key, T>(entries: Seq<(K, T)>, id: K::Id) -> Option<T>
    decreases entries.len(),
{
    if entries.len() == 0 {
        None
    } else if entries.last().0.id() == id {
        Some(entries.last().1)
    } else {
        lookup(entries.drop_last(), id)
    }
}

#[derive(Debug)]
pub struct ListMap<K: Key, T> {
    pub entries: Vec<(K, T)>,
}

impl<K: Key, T> View for ListMap<K, T> {
    type V = Map<K::Id, T>;

    open spec fn view(&self) -> Map<K::Id, T> {
        Map::new(
            |id: K::Id| lookup(self.entries@, id) is Some,
            |id: K::Id| lookup(self.entries@, id)->0,
        )
    }
}

/// No two entries have the same key.
pub open spec fn has_distinct_keys<K: Key, T>(entries: Seq<(K, T)>) -> bool {
    forall|i: int, j: int|
        0 <= i < j < entries.len() ==> (#[trigger] entries[i]).0.id() != (
        #[trigger] entries[j]).0.id()
}

/// What is found is the value of some entry with the key.
pub proof fn lookup_finds_entry<K: Key, T>(entries: Seq<(K, T)>, id: K::Id) -> (at: int)
    requires
        lookup(entries, id) is Some,
    ensures
        0 <= at < entries.len(),
        entries[at].0.id() == id,
        lookup(entries, id) == Some(entries[at].1),
    decreases entries.len(),
{
    if entries.last().0.id() == id {
        entries.len() - 1
    } else {
        lookup_finds_entry(entries.drop_last(), id)
    }
}

/// Something is found under the key of every entry.
pub proof fn key_is_found<K: Key, T>(entries: Seq<(K, T)>, at: int)
    requires
        0 <= at < entries.len(),
    ensures
        lookup(entries, entries[at].0.id()) is Some,
    decreases entries.len(),
{
    if at < entries.len() - 1 {
        key_is_found(entries.drop_last(), at);
    }
}

/// Where the keys are distinct, every entry is found under its key.
pub proof fn entry_is_found<K: Key, T>(entries: Seq<(K, T)>, at: int)
    requires
        has_distinct_keys(entries),
        0 <= at < entries.len(),
    ensures
        lookup(entries, entries[at].0.id()) == Some(entries[at].1),
    decreases entries.len(),
{
    if at < entries.len() - 1 {
        let earlier = entries.drop_last();
        assert(entries[entries.len() - 1].0.id() != entries[at].0.id());
        assert forall|i: int, j: int| 0 <= i < j < earlier.len() implies (
        #[trigger] earlier[i]).0.id() != (#[trigger] earlier[j]).0.id() by {
            assert(earlier[i] == entries[i] && earlier[j] == entries[j]);
        }
        entry_is_found(earlier, at);
    }
}

proof fn lemma_lookup_remove<K: Key, T>(entries: Seq<(K, T)>, i: int, id: K::Id)
    requires
        0 <= i < entries.len(),
        entries[i].0.id() != id,
    ensures
        lookup(entries.remove(i), id) == lookup(entries, id),
    decreases entries.len(),
{
    let after = entries.remove(i);
    if i == entries.len() - 1 {
        assert(after =~= entries.drop_last());
    } else {
        assert(after.last() == entries.last());
        assert(after.drop_last() =~= entries.drop_last().remove(i));
        lemma_lookup_remove(entries.drop_last(), i, id);
    }
}

proof fn lemma_lookup_none<K: Key, T>(entries: Seq<(K, T)>, id: K::Id)
    requires
        forall|i: int| 0 <= i < entries.len() ==> (#[trigger] entries[i]).0.id() != id,
    ensures
        lookup(entries, id) is None,
    decreases entries.len(),
{
    if entries.len() > 0 {
        assert(entries.last() == entries[entries.len() - 1]);
        assert forall|i: int| 0 <= i < entries.drop_last().len() implies (
        #[trigger] entries.drop_last()[i]).0.id() != id by {
            assert(entries.drop_last()[i] == entries[i]);
        }
        lemma_lookup_none(entries.drop_last(), id);
    }
}

impl<K: Key, T> ListMap<K, T> {
    /// A map that holds nothing.
    pub fn new() -> (map: Self)
        ensures
            map@ == Map::<K::Id, T>::empty(),
            map.entries@.len() == 0,
    {
        let map = ListMap { entries: Vec::new() };
        assert(map@ =~= Map::<K::Id, T>::empty());
        map
    }

    fn position(&self, key: &K) -> (found: Option<usize>)
        ensures
            match found {
                Some(i) => i < self.entries@.len() && self.entries@[i as int].0.id() == key.id()
                    && lookup(self.entries@, key.id()) == Some(self.entries@[i as int].1),
                None => lookup(self.entries@, key.id()) is None && forall|i: int|
                    0 <= i < self.entries@.len() ==> (#[trigger] self.entries@[i]).0.id()
                        != key.id(),
            },
    {
        let mut i: usize = self.entries.len();
        assert(self.entries@.take(i as int) =~= self.entries@);
        while i > 0
            invariant
                i <= self.entries@.len(),
                lookup(self.entries@.take(i as int), key.id()) == lookup(self.entries@, key.id()),
                forall|j: int|
                    i <= j < self.entries@.len() ==> (#[trigger] self.entries@[j]).0.id()
                        != key.id(),
            decreases i,
        {
            i -= 1;
            assert(self.entries@.take(i + 1).last() == self.entries@[i as int]);
            assert(self.entries@.take(i + 1).drop_last() =~= self.entries@.take(i as int));
            if self.entries[i].0.same(key) {
                return Some(i);
            }
        }
        None
    }

    /// The value under a key.
    pub fn get(&self, key: &K) -> (value: Option<&T>)
        ensures
            value is Some <==> self@.contains_key(key.id()),
            value matches Some(value) ==> *value == self@[key.id()],
    {
        match self.position(key) {
            Some(i) => Some(&self.entries[i].1),
            None => None,
        }
    }

    /// Whether a key is there.
    pub fn contains_key(&self, key: &K) -> (has: bool)
        ensures
            has == self@.contains_key(key.id()),
    {
        self.position(key).is_some()
    }

    /// Takes the value under a key out.
    pub fn remove(&mut self, key: &K) -> (value: Option<T>)
        ensures
            final(self)@ == old(self)@.remove(key.id()),
            value is Some <==> old(self)@.contains_key(key.id()),
            value matches Some(value) ==> value == old(self)@[key.id()],
            has_distinct_keys(old(self).entries@) ==> has_distinct_keys(final(self).entries@),
            forall|i: int|
                0 <= i < final(self).entries@.len() ==> (#[trigger] final(self).entries@[i]).0.id()
                    != key.id(),
    {
        let mut value: Option<T> = None;
        let ghost before = self.entries@;
        let mut at = self.position(key);
        while at.is_some()
            invariant
                match at {
                    Some(i) => i < self.entries@.len() && self.entries@[i as int].0.id()
                        == key.id() && lookup(self.entries@, key.id()) == Some(
                        self.entries@[i as int].1,
                    ),
                    None => lookup(self.entries@, key.id()) is None && forall|i: int|
                        0 <= i < self.entries@.len() ==> (#[trigger] self.entries@[i]).0.id()
                            != key.id(),
                },
                has_distinct_keys(before) ==> has_distinct_keys(self.entries@),
                value is None ==> self.entries@ == before,
                value matches Some(value) ==> lookup(before, key.id()) == Some(value),
                forall|id: K::Id|
                    id != key.id() ==> #[trigger] lookup(self.entries@, id) == lookup(before, id),
            decreases self.entries@.len(),
        {
            if let Some(i) = at {
                proof {
                    let entries = self.entries@;
                    assert forall|id: K::Id| id != key.id() implies #[trigger] lookup(
                        entries.remove(i as int),
                        id,
                    ) == lookup(entries, id) by {
                        lemma_lookup_remove(entries, i as int, id);
                    }
                }
                let entry = self.entries.remove(i);
                if value.is_none() {
                    value = Some(entry.1);
                }
            }
            at = self.position(key);
        }
        assert(self@ =~= old(self)@.remove(key.id()));
        value
    }

    /// Puts a value under a key, in place of what was there.
    pub fn insert(&mut self, key: K, value: T)
        ensures
            final(self)@ == old(self)@.insert(key.id(), value),
            has_distinct_keys(old(self).entries@) ==> has_distinct_keys(final(self).entries@),
    {
        let dropped = self.remove(&key);
        let ghost before = self.entries@;
        let ghost removed = self@;
        let ghost id = key.id();
        self.entries.push((key, value));
        proof {
            let after = self.entries@;
            assert(after.drop_last() =~= before);
            assert(self@ =~= removed.insert(id, value)) by {
                assert forall|other: K::Id| #[trigger] lookup(after, other) == (if other == id {
                    Some(value)
                } else {
                    lookup(before, other)
                }) by {}
            }
            assert(self@ =~= old(self)@.insert(id, value));
        }
    }
}

} // verus!
