//! Sequences that hand out their items one at a time.
//!
//! Transcoders are lazy: they pull units from a source as they are asked for
//! items.  `Source` is what they pull from and what they are themselves.
use vstd::prelude::*;

verus! {

/// A sequence that is consumed item by item.
///
/// A source is *exact* where its items are a function of what it was made
/// from; `pending` then names the items that are still to come, and `next`
/// hands them out in order.  A source that asks the host for each item is
/// not exact, and of it only what holds of every answer is stated.
pub trait Source {
    /// The type of the items.
    type Item;

    /// Whether `pending` says what `next` returns.
    spec fn is_exact(&self) -> bool;

    /// The items that are still to come, where the source is exact.
    spec fn pending(&self) -> Seq<Self::Item>;

    /// Whether the source has ended: it returns no further item.
    spec fn is_done(&self) -> bool;

    /// A bound on the number of items that are still to come.
    spec fn budget(&self) -> nat;

    /// Whether a source ends with this item.  An error item is terminal: a
    /// transcoder stops at its first error.
    spec fn is_terminal(item: Self::Item) -> bool;

    /// An exact source that has ended has nothing pending.
    proof fn lemma_done_is_empty(&self)
        ensures
            self.is_exact() && self.is_done() ==> self.pending().len() == 0,
    ;

    /// Returns the next item, or `None` at the end.
    ///
    /// A source that has ended returns `None` from then on.  It has ended
    /// when it has returned `None`, and when it has returned a terminal item:
    /// after an error a transcoder hands out nothing more.
    fn next(&mut self) -> (item: Option<Self::Item>)
        ensures
            old(self).is_exact() ==> final(self).is_exact(),
            old(self).is_done() ==> item is None,
            item is None ==> final(self).is_done(),
            final(self).budget() <= old(self).budget(),
            item matches Some(i) ==> final(self).budget() < old(self).budget(),
            item matches Some(i) ==> (Self::is_terminal(i) ==> final(self).is_done()),
            old(self).is_exact() ==> (if old(self).pending().len() == 0 {
                item is None && final(self).pending() == old(self).pending()
            } else {
                &&& item == Some(old(self).pending()[0])
                &&& final(self).pending() == old(self).pending().skip(1)
            }),
    ;
}

/// Whether an item of a transcoder is an error.
pub open spec fn is_error<T, E>(item: Result<T, E>) -> bool {
    item is Err
}

/// The items of a slice, from its first to its last.
pub struct SliceIter<'a, T> {
    items: &'a [T],
    at: usize,
}

impl<'a, T> SliceIter<'a, T> {
    #[verifier::type_invariant]
    spec fn inv(self) -> bool {
        self.at <= self.items@.len()
    }

    /// The items that have not been handed out yet.
    pub closed spec fn rest(self) -> Seq<T> {
        self.items@.skip(self.at as int)
    }
}

impl<'a, T: Copy> SliceIter<'a, T> {
    /// A source of the items of `items`.
    pub fn new(items: &'a [T]) -> (iter: Self)
        ensures
            iter.rest() == items@,
            iter.pending() == items@,
            iter.is_exact(),
            iter.budget() <= usize::MAX,
    {
        let _ = items.len();
        let iter = SliceIter { items, at: 0 };
        iter
    }

    /// The part of the slice that has not been handed out yet.
    pub fn as_slice(&self) -> (rest: &'a [T])
        ensures
            rest@ == self.rest(),
    {
        proof {
            use_type_invariant(self);
        }
        let items: &'a [T] = self.items;
        vstd::slice::slice_subrange(items, self.at, items.len())
    }
}

impl<'a, T: Copy> Source for SliceIter<'a, T> {
    type Item = T;

    open spec fn is_exact(&self) -> bool {
        true
    }

    open spec fn pending(&self) -> Seq<T> {
        self.rest()
    }

    open spec fn is_done(&self) -> bool {
        self.rest().len() == 0
    }

    open spec fn budget(&self) -> nat {
        self.rest().len()
    }

    open spec fn is_terminal(item: T) -> bool {
        false
    }

    proof fn lemma_done_is_empty(&self) {
    }

    fn next(&mut self) -> (item: Option<T>) {
        proof {
            use_type_invariant(&*self);
        }
        if self.at < self.items.len() {
            let item = self.items[self.at];
            self.at = self.at + 1;
            Some(item)
        } else {
            None
        }
    }
}

/// The items of a vector, from its first to its last.  The source owns the
/// vector.
pub struct VecIter<T> {
    items: Vec<T>,
    at: usize,
}

impl<T> VecIter<T> {
    #[verifier::type_invariant]
    spec fn inv(self) -> bool {
        self.at <= self.items@.len()
    }

    /// The items that have not been handed out yet.
    pub closed spec fn rest(self) -> Seq<T> {
        self.items@.skip(self.at as int)
    }
}

impl<T: Copy> VecIter<T> {
    /// A source of the items of `items`.
    pub fn new(items: Vec<T>) -> (iter: Self)
        ensures
            iter.rest() == items@,
            iter.pending() == items@,
            iter.is_exact(),
            iter.budget() <= usize::MAX,
    {
        let _ = items.len();
        let iter = VecIter { items, at: 0 };
        iter
    }
}

impl<T: Copy> Source for VecIter<T> {
    type Item = T;

    open spec fn is_exact(&self) -> bool {
        true
    }

    open spec fn pending(&self) -> Seq<T> {
        self.rest()
    }

    open spec fn is_done(&self) -> bool {
        self.rest().len() == 0
    }

    open spec fn budget(&self) -> nat {
        self.rest().len()
    }

    open spec fn is_terminal(item: T) -> bool {
        false
    }

    proof fn lemma_done_is_empty(&self) {
    }

    fn next(&mut self) -> (item: Option<T>) {
        proof {
            use_type_invariant(&*self);
        }
        if self.at < self.items.len() {
            let item = self.items[self.at];
            self.at = self.at + 1;
            Some(item)
        } else {
            None
        }
    }
}

} // verus!
