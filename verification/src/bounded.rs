//! A first-in, first-out history that keeps at most a fixed number of
//! items, dropping the oldest one to make room for a new one.

use vstd::prelude::*;
use std::collections::VecDeque;

verus! {

/// Room the history keeps: its capacity, but always at least one item.
pub open spec fn room(capacity: nat) -> nat {
    if capacity == 0 {
        1
    } else {
        capacity
    }
}

/// The history after `x` is appended to `s` under `capacity`: when the
/// history is full, its oldest item leaves first.
pub open spec fn pushed<T>(s: Seq<T>, capacity: nat, x: T) -> Seq<T> {
    if s.len() >= capacity && s.len() > 0 {
        s.drop_first().push(x)
    } else {
        s.push(x)
    }
}

/// The newest `n` items of `s` (all of them if it has fewer).
pub open spec fn newest<T>(s: Seq<T>, n: nat) -> Seq<T> {
    if s.len() <= n {
        s
    } else {
        s.skip(s.len() - n)
    }
}

/// A history of at most `capacity` items (one when `capacity` is zero).
pub struct BoundedLog<T> {
    items: VecDeque<T>,
    capacity: usize,
}

impl<T> View for BoundedLog<T> {
    type V = Seq<T>;

    closed spec fn view(&self) -> Seq<T> {
        self.items@
    }
}

impl<T> BoundedLog<T> {
    #[verifier::type_invariant]
    spec fn within_room(self) -> bool {
        self.items@.len() <= room(self.capacity as nat)
    }

    /// The most items the history keeps, as configured.
    pub closed spec fn capacity(&self) -> nat {
        self.capacity as nat
    }

    /// An empty history keeping at most `capacity` items.
    pub fn new(capacity: usize) -> (r: Self)
        ensures
            r@ == Seq::<T>::empty(),
            r.capacity() == capacity,
    {
        BoundedLog { items: VecDeque::new(), capacity }
    }

    /// Appends `x`; when the history is full, the oldest item is dropped first.
    pub fn push(&mut self, x: T)
        ensures
            final(self)@ == pushed(old(self)@, old(self).capacity(), x),
            final(self).capacity() == old(self).capacity(),
            final(self)@.len() <= room(final(self).capacity()),
    {
        proof {
            use_type_invariant(&*self);
        }
        let mut items: VecDeque<T> = VecDeque::new();
        std::mem::swap(&mut items, &mut self.items);
        if items.len() >= self.capacity {
            let _ = items.pop_front();
        }
        items.push_back(x);
        self.items = items;
    }

    /// Number of items held.
    pub fn len(&self) -> (r: usize)
        ensures
            r == self@.len(),
            r <= room(self.capacity()),
    {
        proof {
            use_type_invariant(self);
        }
        self.items.len()
    }

    /// Whether the history is empty.
    pub fn is_empty(&self) -> (r: bool)
        ensures
            r == (self@.len() == 0),
    {
        self.items.len() == 0
    }

    /// The `i`-th item, oldest first.
    pub fn get(&self, i: usize) -> (r: &T)
        requires
            i < self@.len(),
        ensures
            *r == self@[i as int],
    {
        &self.items[i]
    }

    /// The newest item, if any.
    pub fn back(&self) -> (r: Option<&T>)
        ensures
            match r {
                Some(x) => self@.len() > 0 && *x == self@.last(),
                None => self@.len() == 0,
            },
    {
        let n = self.items.len();
        if n == 0 {
            None
        } else {
            Some(&self.items[n - 1])
        }
    }
}

} // verus!
