//! Walking over the items of a collection, in order.
use vstd::prelude::*;

verus! {

/// A walk over the items of a collection, from the first to the last.
pub struct Items<'a, T> {
    items: &'a Vec<T>,
    at: usize,
}

impl<'a, T> Items<'a, T> {
    /// The items that the walk has yet to give, the next one first.
    pub closed spec fn remaining(&self) -> Seq<T> {
        self.items@.skip(self.at as int)
    }

    #[verifier::type_invariant]
    spec fn well_formed(self) -> bool {
        self.at <= self.items@.len()
    }

    /// A walk over all of `items`.
    pub fn new(items: &'a Vec<T>) -> (walk: Items<'a, T>)
        ensures
            walk.remaining() == items@,
    {
        let walk = Items { items, at: 0 };
        assert(items@.skip(0) == items@);
        walk
    }

    /// The next item, if any is left.
    pub fn next(&mut self) -> (item: Option<&'a T>)
        ensures
            old(self).remaining().len() == 0 ==> item is None
                && final(self).remaining() == old(self).remaining(),
            old(self).remaining().len() > 0 ==> item == Some(&old(self).remaining()[0])
                && final(self).remaining() == old(self).remaining().skip(1),
    {
        proof {
            use_type_invariant(&*self);
        }
        if self.at < self.items.len() {
            let item = &self.items[self.at];
            proof {
                assert(self.items@.skip(self.at as int).skip(1) == self.items@.skip(self.at + 1));
            }
            self.at = self.at + 1;
            Some(item)
        } else {
            None
        }
    }

    /// The item `n` places after the next one; the walk goes on behind it.
    /// Where fewer are left, none is given and the walk is at its end.
    pub fn nth(&mut self, n: usize) -> (item: Option<&'a T>)
        ensures
            n < old(self).remaining().len() ==> item == Some(&old(self).remaining()[n as int])
                && final(self).remaining() == old(self).remaining().skip(n + 1),
            n >= old(self).remaining().len() ==> item is None && final(self).remaining().len() == 0,
    {
        proof {
            use_type_invariant(&*self);
        }
        let left = self.items.len() - self.at;
        if n < left {
            let item = &self.items[self.at + n];
            proof {
                assert(self.items@.skip(self.at as int).skip(n + 1) == self.items@.skip(
                    self.at + n + 1,
                ));
            }
            self.at = self.at + n + 1;
            Some(item)
        } else {
            self.at = self.items.len();
            None
        }
    }

    /// How many items are left.
    pub fn count(self) -> (n: usize)
        ensures
            n == self.remaining().len(),
    {
        proof {
            use_type_invariant(&self);
        }
        self.items.len() - self.at
    }
}

} // verus!
