//! Helpers for maps and sets keyed by numeric identifiers.
use std::collections::{BTreeMap, BTreeSet};
use vstd::prelude::*;

verus! {

/// The identifiers stand in strictly ascending order.
pub open spec fn ascending(ids: Seq<u64>) -> bool {
    forall|i: int, j: int| 0 <= i < j < ids.len() ==> ids[i] < ids[j]
}

/// What a sequence holds with one more element.
pub proof fn contains_push<T>(s: Seq<T>, pushed: T, x: T)
    ensures
        s.push(pushed).contains(x) <==> s.contains(x) || x == pushed,
{
    if s.contains(x) {
        let k = choose|k: int| 0 <= k < s.len() && s[k] == x;
        assert(s.push(pushed)[k] == x);
    }
    if s.push(pushed).contains(x) {
        let k = choose|k: int| 0 <= k < s.push(pushed).len() && s.push(pushed)[k] == x;
        if k < s.len() {
            assert(s[k] == x);
        }
    }
    assert(s.push(pushed)[s.len() as int] == pushed);
}

/// What the tree iterators call increasing is ascending.
proof fn lemma_increasing(s: Seq<&u64>, i: int, j: int)
    requires
        vstd::std_specs::btree::increasing_seq(s),
        0 <= i < j < s.len(),
    ensures
        s.unref()[i] < s.unref()[j],
{
    broadcast use {
        vstd::std_specs::btree::group_btree_axioms,
        vstd::laws_cmp::group_laws_cmp,
    };

    assert(vstd::laws_cmp::obeys_cmp::<&u64>());
    assert(vstd::std_specs::cmp::OrdSpec::cmp_spec(&s[i], &s[j]) is Less);
}

/// The keys of a map in ascending order.
pub fn map_keys<V>(map: &BTreeMap<u64, V>) -> (keys: Vec<u64>)
    ensures
        ascending(keys@),
        forall|k: u64| #[trigger] keys@.contains(k) <==> map@.contains_key(k),
{
    broadcast use vstd::std_specs::btree::group_btree_axioms;

    let mut keys: Vec<u64> = Vec::new();
    let iter = map.keys();
    let ghost all = vstd::std_specs::iter::IteratorSpec::remaining(
        &vstd::std_specs::btree::spec_keys_iter(map),
    ).unref();
    for k in it: iter
        invariant
            keys@ == all.take(it.index()),
            it.seq().unref() == all,
    {
        keys.push(*k);
        assert(all[it.index()] == *k) by {
            assert(it.seq().unref()[it.index()] == *it.seq()[it.index()]);
        }
        assert(all.take(it.index() + 1) =~= all.take(it.index()).push(*k));
    }
    assert(all.take(all.len() as int) =~= all);
    proof {
        let s = vstd::std_specs::iter::IteratorSpec::remaining(
        &vstd::std_specs::btree::spec_keys_iter(map),
    );
        assert(vstd::std_specs::btree::increasing_seq(s));
        assert forall|i: int, j: int| 0 <= i < j < all.len() implies all[i] < all[j] by {
            lemma_increasing(s, i, j);
        }
        assert forall|k: u64| #[trigger] keys@.contains(k) <==> map@.contains_key(k) by {
            assert(all.to_set().contains(k) <==> map@.dom().contains(k));
        }
    }
    keys
}

/// The elements of a set in ascending order.
pub fn set_items(set: &BTreeSet<u64>) -> (items: Vec<u64>)
    ensures
        ascending(items@),
        forall|k: u64| #[trigger] items@.contains(k) <==> set@.contains(k),
{
    broadcast use vstd::std_specs::btree::group_btree_axioms;

    let mut items: Vec<u64> = Vec::new();
    let iter = set.iter();
    let ghost all = vstd::std_specs::iter::IteratorSpec::remaining(
        &vstd::std_specs::btree::spec_btree_keys_iter(set),
    ).unref();
    for k in it: iter
        invariant
            items@ == all.take(it.index()),
            it.seq().unref() == all,
    {
        items.push(*k);
        assert(all[it.index()] == *k) by {
            assert(it.seq().unref()[it.index()] == *it.seq()[it.index()]);
        }
        assert(all.take(it.index() + 1) =~= all.take(it.index()).push(*k));
    }
    assert(all.take(all.len() as int) =~= all);
    proof {
        let s = vstd::std_specs::iter::IteratorSpec::remaining(
        &vstd::std_specs::btree::spec_btree_keys_iter(set),
    );
        assert(vstd::std_specs::btree::increasing_seq(s));
        assert forall|i: int, j: int| 0 <= i < j < all.len() implies all[i] < all[j] by {
            lemma_increasing(s, i, j);
        }
        assert forall|k: u64| #[trigger] items@.contains(k) <==> set@.contains(k) by {
            assert(all.to_set().contains(k) <==> set@.contains(k));
        }
    }
    items
}

/// Takes the value under a key out of a map.
pub fn map_take<V>(map: &mut BTreeMap<u64, V>, key: u64) -> (value: Option<V>)
    ensures
        final(map)@ == old(map)@.remove(key),
        value is Some <==> old(map)@.contains_key(key),
        value matches Some(value) ==> value == old(map)@[key],
{
    broadcast use vstd::std_specs::btree::group_btree_axioms;

    let value = map.remove(&key);
    assert(!old(map)@.contains_key(key) ==> old(map)@.remove(key) =~= old(map)@);
    value
}

/// Puts a value under a key of a map.
pub fn map_put<V>(map: &mut BTreeMap<u64, V>, key: u64, value: V)
    ensures
        final(map)@ == old(map)@.insert(key, value),
{
    broadcast use vstd::std_specs::btree::group_btree_axioms;

    map.insert(key, value);
}

/// The value under a key of a map.
pub fn map_get<V>(map: &BTreeMap<u64, V>, key: u64) -> (value: Option<&V>)
    ensures
        value is Some <==> map@.contains_key(key),
        value matches Some(value) ==> *value == map@[key],
{
    broadcast use vstd::std_specs::btree::group_btree_axioms;

    map.get(&key)
}

/// Whether a map holds a key.
pub fn map_has<V>(map: &BTreeMap<u64, V>, key: u64) -> (has: bool)
    ensures
        has == map@.contains_key(key),
{
    broadcast use vstd::std_specs::btree::group_btree_axioms;

    map.contains_key(&key)
}

/// Adds an identifier to a set, and says whether it was new.
pub fn set_put(set: &mut BTreeSet<u64>, id: u64) -> (new: bool)
    ensures
        final(set)@ == old(set)@.insert(id),
        new == !old(set)@.contains(id),
{
    broadcast use vstd::std_specs::btree::group_btree_axioms;

    set.insert(id)
}

/// Removes an identifier from a set, and says whether it was there.
pub fn set_take(set: &mut BTreeSet<u64>, id: u64) -> (had: bool)
    ensures
        final(set)@ == old(set)@.remove(id),
        had == old(set)@.contains(id),
{
    broadcast use vstd::std_specs::btree::group_btree_axioms;

    let had = set.remove(&id);
    assert(!old(set)@.contains(id) ==> old(set)@.remove(id) =~= old(set)@);
    had
}

/// Whether a set holds an identifier.
pub fn set_has(set: &BTreeSet<u64>, id: u64) -> (has: bool)
    ensures
        has == set@.contains(id),
{
    broadcast use vstd::std_specs::btree::group_btree_axioms;

    set.contains(&id)
}

/// Whether a set holds nothing.
pub fn set_is_empty(set: &BTreeSet<u64>) -> (empty: bool)
    ensures
        empty == (set@ == Set::<u64>::empty()),
{
    let items: Vec<u64> = set_items(set);
    proof {
        if items@.len() == 0 {
            assert(set@ =~= Set::<u64>::empty()) by {
                assert forall|k: u64| !set@.contains(k) by {
                    assert(!items@.contains(k));
                }
            }
        } else {
            assert(items@.contains(items@[0]));
        }
    }
    items.len() == 0
}

/// Copies a set.
pub fn set_copy(set: &BTreeSet<u64>) -> (copy: BTreeSet<u64>)
    ensures
        copy@ == set@,
{
    let items: Vec<u64> = set_items(set);
    let mut copy: BTreeSet<u64> = BTreeSet::new();
    let mut i: usize = 0;
    while i < items.len()
        invariant
            i <= items@.len(),
            copy@ == items@.take(i as int).to_set(),
        decreases items@.len() - i,
    {
        set_put(&mut copy, items[i]);
        assert(items@.take(i + 1) =~= items@.take(i as int).push(items@[i as int]));
        assert(copy@ =~= items@.take(i + 1).to_set()) by {
            assert forall|k: u64| copy@.contains(k) <==> items@.take(i + 1).contains(k) by {
                let before = items@.take(i as int);
                let after = items@.take(i + 1);
                assert(after[i as int] == items@[i as int]);
                if before.contains(k) {
                    let j = choose|j: int| 0 <= j < before.len() && before[j] == k;
                    assert(after[j] == k);
                }
                if after.contains(k) {
                    let j = choose|j: int| 0 <= j < after.len() && after[j] == k;
                    if j < i {
                        assert(before[j] == k);
                    }
                }
            }
        }
        i += 1;
    }
    assert(items@.take(i as int) =~= items@);
    assert(copy@ =~= set@);
    copy
}

} // verus!
