//! Stable sorting by key.
//!
//! The order of a list of keys is the list of its positions, by increasing
//! key and, among equal keys, by increasing position. There is exactly one
//! such list, so to sort stably is to read the items in that order.

use vstd::prelude::*;
use vstd::relations::{sorted_by, total_ordering};
use vstd::seq_lib::{lemma_sorted_unique, to_multiset_update};
use crate::vec3::Key;

verus! {

/// Whether position `a` stands at or before position `b` in the order of
/// `keys`: its key is smaller, or the keys are equal and `a` is not the later
/// position.
pub open spec fn precedes(keys: Seq<Key>, a: usize, b: usize) -> bool {
    keys[a as int] < keys[b as int] || (keys[a as int] == keys[b as int] && a <= b)
}

/// The positions `0, 1, .., n - 1`.
pub open spec fn positions(n: nat) -> Seq<usize> {
    Seq::new(n, |i: int| i as usize)
}

/// Whether `order` lists positions of `keys` in their order.
pub open spec fn in_order(keys: Seq<Key>, order: Seq<usize>) -> bool {
    forall|i: int, j: int|
        0 <= i < j < order.len() ==> precedes(keys, #[trigger] order[i], #[trigger] order[j])
}

/// The order of `keys`: every position once, by increasing key, equal keys by
/// increasing position.
pub open spec fn stable_order(keys: Seq<Key>) -> Seq<usize> {
    positions(keys.len()).sort_by(|a: usize, b: usize| precedes(keys, a, b))
}

/// `items` read in the order of `keys`.
pub open spec fn stable_sort(items: Seq<usize>, keys: Seq<Key>) -> Seq<usize> {
    Seq::new(items.len(), |i: int| items[stable_order(keys)[i] as int])
}

/// Precedence is a total order on positions.
pub proof fn lemma_precedes_total(keys: Seq<Key>)
    ensures
        total_ordering(|a: usize, b: usize| precedes(keys, a, b)),
{
}

/// The order of `keys` holds every position exactly once and is in order.
pub proof fn lemma_stable_order(keys: Seq<Key>)
    ensures
        stable_order(keys).len() == keys.len(),
        stable_order(keys).to_multiset() == positions(keys.len()).to_multiset(),
        in_order(keys, stable_order(keys)),
        forall|i: int|
            0 <= i < keys.len() ==> (#[trigger] stable_order(keys)[i]) < keys.len(),
{
    let leq = |a: usize, b: usize| precedes(keys, a, b);
    let ids = positions(keys.len());
    lemma_precedes_total(keys);
    ids.lemma_sort_by_ensures(leq);
    let order = stable_order(keys);
    broadcast use vstd::seq_lib::group_to_multiset_ensures;

    assert(order.len() == keys.len()) by {
        assert(order.to_multiset().len() == ids.to_multiset().len());
    }
    assert forall|i: int, j: int| 0 <= i < j < order.len() implies precedes(
        keys,
        #[trigger] order[i],
        #[trigger] order[j],
    ) by {
        assert(leq(order[i], order[j]));
    }
    assert forall|i: int| 0 <= i < keys.len() implies (#[trigger] order[i]) < keys.len() by {
        assert(order.contains(order[i]));
        assert(ids.contains(order[i]));
    }
}

/// There is only one order: a list that holds every position once and is in
/// order is the order of `keys`.
pub proof fn lemma_stable_order_unique(keys: Seq<Key>, order: Seq<usize>)
    requires
        order.to_multiset() == positions(keys.len()).to_multiset(),
        in_order(keys, order),
    ensures
        order == stable_order(keys),
{
    let leq = |a: usize, b: usize| precedes(keys, a, b);
    lemma_precedes_total(keys);
    positions(keys.len()).lemma_sort_by_ensures(leq);
    assert(sorted_by(order, leq)) by {
        assert forall|i: int, j: int| 0 <= i < j < order.len() implies #[trigger] leq(
            order[i],
            order[j],
        ) by {
            assert(precedes(keys, order[i], order[j]));
        }
    }
    lemma_sorted_unique(order, stable_order(keys), leq);
}

/// Exchanging two entries of a list keeps what it holds.
pub proof fn lemma_swap_keeps_multiset(s: Seq<usize>, i: int, j: int)
    requires
        0 <= i < s.len(),
        0 <= j < s.len(),
    ensures
        s.update(i, s[j]).update(j, s[i]).to_multiset() == s.to_multiset(),
{
    broadcast use vstd::multiset::group_multiset_axioms;

    to_multiset_update(s, i, s[j]);
    to_multiset_update(s.update(i, s[j]), j, s[i]);
    broadcast use vstd::seq_lib::group_to_multiset_ensures;

    assert(s.to_multiset().count(s[i]) > 0);
    assert(s.to_multiset().count(s[j]) > 0);
    assert(s.update(i, s[j]).update(j, s[i]).to_multiset() =~= s.to_multiset());
}

/// Whether position `a` stands strictly before position `b` in the order
/// of `keys`.
fn stands_before(keys: &Vec<Key>, a: usize, b: usize) -> (r: bool)
    requires
        a < keys.len(),
        b < keys.len(),
    ensures
        r == (precedes(keys@, a, b) && a != b),
{
    keys[a] < keys[b] || (keys[a] == keys[b] && a < b)
}

/// Sorts `items` by `keys`, where `keys[p]` is the key of the item at position
/// `p`: items come out by increasing key, and items with equal keys keep the
/// order they came in. Nothing is added and nothing is lost.
pub fn sort_by_keys(items: &mut Vec<usize>, keys: &Vec<Key>)
    requires
        old(items).len() == keys.len(),
    ensures
        final(items)@ == stable_sort(old(items)@, keys@),
        final(items)@.to_multiset() == old(items)@.to_multiset(),
{
    let n = items.len();
    let mut order: Vec<usize> = Vec::new();
    let mut p: usize = 0;
    while p < n
        invariant
            p <= n,
            order@ == positions(p as nat),
        decreases n - p,
    {
        order.push(p);
        p += 1;
        assert(order@ =~= positions(p as nat));
    }
    let mut i: usize = 0;
    while i < n
        invariant
            i <= n,
            n == keys.len(),
            order.len() == n,
            items.len() == n,
            order@.to_multiset() == positions(n as nat).to_multiset(),
            items@.to_multiset() == old(items)@.to_multiset(),
            forall|k: int| 0 <= k < n ==> (#[trigger] order[k]) < n,
            forall|k: int| 0 <= k < n ==> (#[trigger] items[k]) == old(items)@[order[k] as int],
            forall|a: int, b: int|
                0 <= a < b < i ==> precedes(keys@, #[trigger] order[a], #[trigger] order[b]),
        decreases n - i,
    {
        let mut j: usize = i;
        while j > 0 && stands_before(keys, order[j], order[j - 1])
            invariant
                j <= i < n,
                n == keys.len(),
                order.len() == n,
                items.len() == n,
                order@.to_multiset() == positions(n as nat).to_multiset(),
                items@.to_multiset() == old(items)@.to_multiset(),
                forall|k: int| 0 <= k < n ==> (#[trigger] order[k]) < n,
                forall|k: int|
                    0 <= k < n ==> (#[trigger] items[k]) == old(items)@[order[k] as int],
                forall|a: int, b: int|
                    0 <= a < b <= i && a != j && b != j ==> precedes(
                        keys@,
                        #[trigger] order[a],
                        #[trigger] order[b],
                    ),
                forall|b: int| j < b <= i ==> precedes(keys@, order[j as int], #[trigger] order[b]),
            decreases j,
        {
            proof {
                lemma_swap_keeps_multiset(order@, j - 1, j as int);
                lemma_swap_keeps_multiset(items@, j - 1, j as int);
            }
            let earlier = order[j - 1];
            let later = order[j];
            order.set(j - 1, later);
            order.set(j, earlier);
            let first = items[j - 1];
            let second = items[j];
            items.set(j - 1, second);
            items.set(j, first);
            j -= 1;
        }
        i += 1;
    }
    proof {
        lemma_stable_order_unique(keys@, order@);
        assert(items@ =~= stable_sort(old(items)@, keys@));
    }
}

} // verus!
