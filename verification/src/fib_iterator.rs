//! The Fibonacci sequence, one number per call.

use vstd::prelude::*;
use crate::fib::{fibonacci, lemma_fibonacci_fits, lemma_fibonacci_grows};

verus! {

/// Walks the Fibonacci sequence from its start: 0, 1, 1, 2, 3, 5, ...
pub struct FibIterator {
    /// The number of items after which the walk ends; 0 for a walk without
    /// an end.
    limit: u64,
    index: u64,
    current: u64,
    previous: u64,
}

/// The position after which the next number no longer fits in 64 bits:
/// [`FibIterator::next`] gives the numbers at the positions before it.
pub const LAST_INDEX: u64 = 93;

impl FibIterator {
    /// The number of items after which the walk ends; 0 for none.
    pub closed spec fn limit(&self) -> nat {
        self.limit as nat
    }

    /// The number of items given so far, which is the position of the next.
    pub closed spec fn index(&self) -> nat {
        self.index as nat
    }

    /// The walk has an end and has reached it.
    pub open spec fn is_done(&self) -> bool {
        self.limit() != 0 && self.index() == self.limit()
    }

    #[verifier::type_invariant]
    spec fn well_formed(self) -> bool {
        &&& self.index <= LAST_INDEX
        &&& self.current == fibonacci(self.index as nat)
        &&& self.previous == if self.index == 0 {
            0
        } else {
            fibonacci((self.index - 1) as nat)
        }
    }

    /// A walk at its start that ends after `limit` items, or never where
    /// `limit` is 0.
    pub fn new(limit: u64) -> (walk: FibIterator)
        ensures
            walk.limit() == limit,
            walk.index() == 0,
    {
        FibIterator { limit, index: 0, current: 0, previous: 0 }
    }

    /// The next number of the sequence; `None`, and no step, once the walk
    /// is done.
    ///
    /// The number after the one at [`LAST_INDEX`] does not fit in 64 bits,
    /// so a walk that is not done stops being callable there.
    pub fn next(&mut self) -> (item: Option<u64>)
        requires
            old(self).is_done() || old(self).index() < LAST_INDEX,
        ensures
            final(self).limit() == old(self).limit(),
            old(self).is_done() ==> item is None && final(self).index() == old(self).index(),
            !old(self).is_done() ==> item is Some && item->0 == fibonacci(old(self).index())
                && final(self).index() == old(self).index() + 1,
    {
        proof {
            use_type_invariant(&*self);
        }
        if self.limit != 0 && self.index == self.limit {
            return None;
        }
        let previous = self.previous;
        let current = self.current;
        proof {
            let i = self.index as nat;
            lemma_fibonacci_fits(i + 1);
            assert(current == 0 <==> i == 0) by {
                if i >= 1 {
                    lemma_fibonacci_grows(1, i);
                }
            }
        }
        let next = match current {
            0 => 1,
            _ => current + previous,
        };
        *self = FibIterator {
            limit: self.limit,
            index: self.index + 1,
            current: next,
            previous: current,
        };
        Some(current)
    }

    /// All the numbers that are left in a walk with an end, in order.
    pub fn into_vec(self) -> (items: Vec<u64>)
        requires
            1 <= self.limit() <= LAST_INDEX,
            self.index() <= self.limit(),
        ensures
            items@.len() == self.limit() - self.index(),
            forall|i: int|
                0 <= i < items@.len() ==> items@[i] == fibonacci((self.index() + i) as nat),
    {
        let mut walk = self;
        let mut items: Vec<u64> = Vec::new();
        loop
            invariant
                walk.limit() == self.limit(),
                1 <= self.limit() <= LAST_INDEX,
                self.index() <= walk.index() <= self.limit(),
                items@.len() == walk.index() - self.index(),
                forall|i: int|
                    0 <= i < items@.len() ==> items@[i] == fibonacci((self.index() + i) as nat),
            decreases self.limit() - walk.index(),
        {
            match walk.next() {
                Some(item) => {
                    items.push(item);
                },
                None => {
                    return items;
                },
            }
        }
    }
}

} // verus!
