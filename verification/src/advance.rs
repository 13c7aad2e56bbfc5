//! The plain lookahead adapter.
use vstd::prelude::*;
use vstd::std_specs::iter::IteratorSpec;
use crate::producer::{item_at, lemma_next_item_after, next_item, rest, rest_after};

verus! {

/// Wrapper around an iterator that keeps the item fetched last, so that it can
/// be looked at any number of times before the next one is asked for.
///
/// The adapter owns the iterator. It asks it for one item when it is made and
/// for one more at each [`advance`](Advance::advance), never ahead of that, and
/// keeps no item that it has advanced past.
///
/// What the contracts say of the cached item is said of iterators that keep to
/// vstd's iterator laws (`obeys_prophetic_iter_laws`): only of those does
/// `Iterator::next` promise which item comes.
///
/// See also [`CountingAdvance`](crate::counting::CountingAdvance), which also
/// counts the advances.
#[derive(Debug, Copy, Clone, Eq, PartialEq)]
pub struct Advance<I: Iterator> {
    current: Option<I::Item>,
    iter: I,
}

impl<I: Iterator> Advance<I> {
    /// The cached item: the one fetched by the latest request, or nothing
    /// where that request found the iterator exhausted.
    pub closed spec fn cached(&self) -> Option<I::Item> {
        self.current
    }

    /// The wrapped iterator, as the adapter's requests have left it.
    pub closed spec fn source(&self) -> I {
        self.iter
    }

    /// Wraps the given iterator and fetches its first item, if it has one, to
    /// be the cached item.
    ///
    /// The iterator is asked exactly once: the adapter caches what that
    /// request yields, and holds the iterator as the request leaves it.
    #[inline]
    pub fn new(mut iter: I) -> (adv: Self)
        ensures
            adv.source().obeys_prophetic_iter_laws() == iter.obeys_prophetic_iter_laws(),
            iter.obeys_prophetic_iter_laws() ==> {
                &&& adv.cached() == next_item(iter.remaining())
                &&& adv.source().remaining() == rest(iter.remaining())
                &&& adv.source().decrease() is Some <==> iter.decrease() is Some
            },
    {
        Advance { current: iter.next(), iter }
    }

    /// Fetches the next item and caches it in place of the one held so far,
    /// which is dropped. Once the iterator is exhausted the cached item is
    /// absent, and stays absent however often this is called.
    ///
    /// The iterator is asked exactly once, also where it was found exhausted
    /// before. Where an item was still to come, the iterator's termination
    /// measure has gone down, so that a loop over the adapter can be shown to
    /// end.
    #[inline]
    pub fn advance(&mut self)
        ensures
            final(self).source().obeys_prophetic_iter_laws()
                == old(self).source().obeys_prophetic_iter_laws(),
            old(self).source().obeys_prophetic_iter_laws() ==> {
                &&& final(self).cached() == next_item(old(self).source().remaining())
                &&& final(self).source().remaining() == rest(old(self).source().remaining())
                &&& final(self).source().decrease() is Some
                    <==> old(self).source().decrease() is Some
                &&& old(self).source().remaining().len() > 0
                    && old(self).source().decrease() is Some
                    ==> final(self).source().decrease()->0 < old(self).source().decrease()->0
            },
    {
        self.current = self.iter.next();
    }

    /// A shared reference to the cached item, if there is one. Nothing is
    /// fetched and nothing changes: as long as the adapter is neither advanced
    /// nor written to, every call returns the same.
    #[inline]
    pub fn current(&self) -> (item: Option<&I::Item>)
        ensures
            item == (match self.cached() {
                Some(value) => Some(&value),
                None => None,
            }),
    {
        self.current.as_ref()
    }

    /// A mutable reference to the cached item, if there is one: it shows the
    /// item that [`current`](Advance::current) shows. What the caller writes
    /// through it becomes the cached item; the wrapped iterator is not
    /// touched, so the next [`advance`](Advance::advance) fetches what it
    /// would have fetched without the write.
    #[inline]
    pub fn current_mut(&mut self) -> (item: Option<&mut I::Item>)
        ensures
            final(self).source() == old(self).source(),
            match old(self).cached() {
                Some(value) => {
                    &&& item matches Some(slot)
                    &&& *slot == value
                    &&& final(self).cached() == Some(*final(slot))
                },
                None => item is None && final(self).cached() is None,
            },
    {
        self.current.as_mut()
    }

    /// Law: the adapter shows the items of its iterator in order, one more at
    /// each advance, and nothing once they are used up.
    ///
    /// `run` is a history of the adapter over an iterator that keeps to the
    /// iterator laws: `run[0]` is the adapter as `new(iter)` returns it, and
    /// each later entry is what `advance` makes of the entry before it. Then
    /// `run[k]`, the adapter after `k` advances, caches the item at position
    /// `k` of what `iter` had to yield. From the length of that sequence on it
    /// caches nothing, however many advances follow.
    pub proof fn lemma_after_advances(iter: I, run: Seq<Self>, k: int)
        requires
            iter.obeys_prophetic_iter_laws(),
            0 <= k < run.len(),
            run[0].source().obeys_prophetic_iter_laws() == iter.obeys_prophetic_iter_laws(),
            iter.obeys_prophetic_iter_laws() ==> {
                &&& run[0].cached() == next_item(iter.remaining())
                &&& run[0].source().remaining() == rest(iter.remaining())
            },
            forall|j: int|
                0 < j < run.len() ==> {
                    &&& (#[trigger] run[j]).source().obeys_prophetic_iter_laws()
                        == run[j - 1].source().obeys_prophetic_iter_laws()
                    &&& run[j - 1].source().obeys_prophetic_iter_laws() ==> {
                        &&& run[j].cached() == next_item(run[j - 1].source().remaining())
                        &&& run[j].source().remaining() == rest(run[j - 1].source().remaining())
                    }
                },
        ensures
            run[k].cached() == item_at(iter.remaining(), k),
            k >= iter.remaining().len() ==> run[k].cached() is None,
            run[k].source().obeys_prophetic_iter_laws(),
            run[k].source().remaining() == rest_after(iter.remaining(), (k + 1) as nat),
        decreases k,
    {
        if k > 0 {
            Self::lemma_after_advances(iter, run, k - 1);
            assert(run[k].source().obeys_prophetic_iter_laws()
                == run[k - 1].source().obeys_prophetic_iter_laws());
        }
        lemma_next_item_after(iter.remaining(), k as nat);
    }

    /// Law: reads agree, and reading changes nothing.
    ///
    /// `first` and `second` are what two calls of `current` return on an
    /// adapter that was neither advanced nor written to in between, and
    /// `shown` is the item that the reference from `current_mut` shows on that
    /// adapter. All three are the cached item.
    pub proof fn lemma_reads_agree(
        adv: Self,
        first: Option<&I::Item>,
        second: Option<&I::Item>,
        shown: Option<I::Item>,
    )
        requires
            first == (match adv.cached() {
                Some(value) => Some(&value),
                None => None,
            }),
            second == (match adv.cached() {
                Some(value) => Some(&value),
                None => None,
            }),
            match adv.cached() {
                Some(value) => shown == Some(value),
                None => shown is None,
            },
        ensures
            first == second,
            first == (match shown {
                Some(value) => Some(&value),
                None => None,
            }),
    {
    }

    /// Law: a write through `current_mut` is seen by `current` and does not
    /// reach the iterator.
    ///
    /// `written` is the adapter `before` once `value` has been written through
    /// the reference that `current_mut` gave, `seen` is what `current` returns
    /// then, and `plain_next` and `written_next` are what `advance` makes of
    /// `before` and of `written`. Then `seen` is `value`, and both adapters
    /// cache the same item after the advance and hold iterators with the same
    /// items yet to come: the write has changed the cached item and nothing
    /// that an advance reads.
    pub proof fn lemma_write_then_advance(
        before: Self,
        value: I::Item,
        written: Self,
        seen: Option<&I::Item>,
        plain_next: Self,
        written_next: Self,
    )
        requires
            before.source().obeys_prophetic_iter_laws(),
            before.cached() is Some,
            written.cached() == Some(value),
            written.source() == before.source(),
            seen == (match written.cached() {
                Some(item) => Some(&item),
                None => None,
            }),
            plain_next.cached() == next_item(before.source().remaining()),
            plain_next.source().remaining() == rest(before.source().remaining()),
            written_next.cached() == next_item(written.source().remaining()),
            written_next.source().remaining() == rest(written.source().remaining()),
        ensures
            seen == Some(&value),
            written_next.cached() == plain_next.cached(),
            written_next.source().remaining() == plain_next.source().remaining(),
    {
    }
}

} // verus!
