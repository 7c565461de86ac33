//! A stable sort for types with a verified order.
use vstd::multiset::Multiset;
use vstd::prelude::*;

verus! {

/// A total preorder together with the executable test for it.
pub trait Ordered: Sized {
    spec fn le(self, other: Self) -> bool;

    proof fn le_total(a: Self, b: Self)
        ensures
            a.le(b) || b.le(a),
    ;

    proof fn le_transitive(a: Self, b: Self, c: Self)
        requires
            a.le(b),
            b.le(c),
        ensures
            a.le(c),
    ;

    fn is_le(&self, other: &Self) -> (result: bool)
        ensures
            result == self.le(*other),
    ;
}

/// The elements stand in ascending order.
pub open spec fn is_sorted<T: Ordered>(items: Seq<T>) -> bool {
    forall|i: int, j: int| 0 <= i <= j < items.len() ==> (#[trigger] items[i]).le(#[trigger] items[j])
}

/// `sorted` holds the elements of `items`, as often as they occur there, in
/// ascending order.
pub open spec fn is_sort_of<T: Ordered>(sorted: Seq<T>, items: Seq<T>) -> bool {
    &&& is_sorted(sorted)
    &&& sorted.to_multiset() == items.to_multiset()
}

/// Inserting an element adds it once to what the sequence holds.
pub proof fn insert_multiset<T>(s: Seq<T>, i: int, a: T)
    requires
        0 <= i <= s.len(),
    ensures
        s.insert(i, a).to_multiset() == s.to_multiset().insert(a),
{
    let t = s.insert(i, a);
    assert(t.remove(i) =~= s);
    t.to_multiset_ensures();
    s.to_multiset_ensures();
    assert(t[i] == a);
    assert(t.contains(a));
    assert(t.to_multiset().count(a) > 0);
    assert(t.to_multiset().remove(a).insert(a) =~= t.to_multiset());
}

/// Sequences with the same multiset hold the same elements.
pub proof fn same_elements<T>(a: Seq<T>, b: Seq<T>)
    requires
        a.to_multiset() == b.to_multiset(),
    ensures
        a.len() == b.len(),
        forall|x: T| #[trigger] a.contains(x) <==> b.contains(x),
{
    a.to_multiset_ensures();
    b.to_multiset_ensures();
    assert forall|x: T| #[trigger] a.contains(x) <==> b.contains(x) by {
        assert(a.contains(x) <==> a.to_multiset().count(x) > 0);
        assert(b.contains(x) <==> b.to_multiset().count(x) > 0);
    }
}

/// Sorts in ascending order.
pub fn sort<T: Ordered>(items: Vec<T>) -> (sorted: Vec<T>)
    ensures
        is_sort_of(sorted@, items@),
{
    let mut rest: Vec<T> = items;
    let mut sorted: Vec<T> = Vec::new();
    proof {
        assert(sorted@.to_multiset().add(rest@.to_multiset()) =~= items@.to_multiset()) by {
            sorted@.to_multiset_ensures();
            assert(sorted@.to_multiset() =~= Multiset::<T>::empty());
        }
    }
    while rest.len() > 0
        invariant
            is_sorted(sorted@),
            sorted@.to_multiset().add(rest@.to_multiset()) == items@.to_multiset(),
        decreases rest@.len(),
    {
        let ghost rest_before = rest@;
        let ghost sorted_before = sorted@;
        let item: T = rest.pop().unwrap();
        let mut at: usize = 0;
        while at < sorted.len() && !item.is_le(&sorted[at])
            invariant
                at <= sorted@.len(),
                sorted@ == sorted_before,
                is_sorted(sorted@),
                forall|i: int| 0 <= i < at ==> !item.le(#[trigger] sorted@[i]),
            decreases sorted@.len() - at,
        {
            at += 1;
        }
        proof {
            insert_multiset(sorted@, at as int, item);
            assert(rest_before =~= rest@.push(item));
            rest@.to_multiset_ensures();
            assert(rest_before.to_multiset() =~= rest@.to_multiset().insert(item));
            assert(sorted_before.to_multiset().insert(item).add(rest@.to_multiset())
                =~= sorted_before.to_multiset().add(rest_before.to_multiset()));
            assert forall|i: int, j: int|
                0 <= i <= j < sorted_before.len() + 1 implies (#[trigger] sorted_before.insert(
                at as int,
                item,
            )[i]).le(#[trigger] sorted_before.insert(at as int, item)[j]) by {
                let t = sorted_before.insert(at as int, item);
                if i == at && j == at {
                    T::le_total(item, item);
                } else if i == at {
                    assert(t[j] == sorted_before[j - 1]);
                    assert(item.le(sorted_before[at as int]));
                    T::le_transitive(item, sorted_before[at as int], sorted_before[j - 1]);
                } else if j == at {
                    assert(t[i] == sorted_before[i]);
                    T::le_total(item, sorted_before[i]);
                } else {
                    let x = if i < at { i } else { i - 1 };
                    let y = if j < at { j } else { j - 1 };
                    assert(t[i] == sorted_before[x] && t[j] == sorted_before[y]);
                }
            }
        }
        sorted.insert(at, item);
    }
    proof {
        rest@.to_multiset_ensures();
        assert(rest@.to_multiset() =~= Multiset::<T>::empty());
        assert(sorted@.to_multiset().add(rest@.to_multiset()) =~= sorted@.to_multiset());
    }
    sorted
}

} // verus!
