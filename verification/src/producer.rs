//! The sequence producer behind an adapter, seen as the sequence of items that
//! it has yet to yield.
//!
//! An iterator that keeps to vstd's iterator laws hands out the items of that
//! sequence in order, one per request, and nothing once the sequence is used
//! up. The functions here say what one request, and what a number of requests,
//! makes of such a sequence.
use vstd::prelude::*;

verus! {

/// What one request yields of a producer that has `pending` yet to yield: the
/// first item, or nothing where none is left.
pub open spec fn next_item<T>(pending: Seq<T>) -> Option<T> {
    if pending.len() > 0 {
        Some(pending[0])
    } else {
        None
    }
}

/// What the producer has yet to yield once that request is answered. An
/// exhausted producer stays exhausted.
pub open spec fn rest<T>(pending: Seq<T>) -> Seq<T> {
    if pending.len() > 0 {
        pending.drop_first()
    } else {
        pending
    }
}

/// What the producer has yet to yield once `n` requests are answered.
pub open spec fn rest_after<T>(pending: Seq<T>, n: nat) -> Seq<T>
    decreases n,
{
    if n == 0 {
        pending
    } else {
        rest(rest_after(pending, (n - 1) as nat))
    }
}

/// The item at position `k` of `items`, and nothing from the end on.
pub open spec fn item_at<T>(items: Seq<T>, k: int) -> Option<T> {
    if 0 <= k < items.len() {
        Some(items[k])
    } else {
        None
    }
}

/// Requests walk the sequence from its front: after `n` of them the first `n`
/// items are gone, or all of them where there were fewer.
pub proof fn lemma_rest_after<T>(items: Seq<T>, n: nat)
    ensures
        n <= items.len() ==> rest_after(items, n) == items.skip(n as int),
        n >= items.len() ==> rest_after(items, n) == Seq::<T>::empty(),
    decreases n,
{
    if n > 0 {
        lemma_rest_after(items, (n - 1) as nat);
        let before = rest_after(items, (n - 1) as nat);
        if n <= items.len() {
            assert(before.drop_first() =~= items.skip(n as int));
        } else {
            assert(before =~= Seq::<T>::empty());
        }
    } else {
        assert(items.skip(0) =~= items);
    }
}

/// The request that follows `n` others yields the item at position `n`, and
/// nothing once `n` has reached the length of the sequence.
pub proof fn lemma_next_item_after<T>(items: Seq<T>, n: nat)
    ensures
        next_item(rest_after(items, n)) == item_at(items, n as int),
        n >= items.len() ==> next_item(rest_after(items, n)) is None,
{
    lemma_rest_after(items, n);
}

} // verus!
