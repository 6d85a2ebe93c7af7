//! Fixed-size slot storage with head, tail and count bookkeeping.
//!
//! This layer knows nothing about concurrency: `push` and `pop` demand
//! that the caller has already checked for room or for an item.

use vstd::prelude::*;

verus! {

/// The slot that holds the `k`-th oldest item of a ring of `cap` slots
/// whose oldest item sits at `head` (for `head < cap` and `k <= cap`).
pub open spec fn slot_of(head: int, k: int, cap: int) -> int {
    if head + k < cap {
        head + k
    } else {
        head + k - cap
    }
}

/// A ring of optional slots. The live items are the `count` slots that
/// start at `head`; `tail` is the next free slot.
pub struct RingStorage<T> {
    slots: Vec<Option<T>>,
    head: usize,
    tail: usize,
    count: usize,
}

impl<T> View for RingStorage<T> {
    type V = Seq<T>;

    /// The live items, oldest first.
    closed spec fn view(&self) -> Seq<T> {
        Seq::new(
            self.count as nat,
            |k: int| self.slots@[slot_of(self.head as int, k, self.slots@.len() as int)]->Some_0,
        )
    }
}

impl<T> RingStorage<T> {
    /// Number of slots, fixed at construction.
    pub closed spec fn capacity_spec(&self) -> nat {
        self.slots@.len()
    }

    /// Well-formedness: indices in range, `count` within the capacity,
    /// `tail` right after the live items, and exactly the `count` slots
    /// from `head` on hold an item.
    pub closed spec fn wf(&self) -> bool {
        let cap = self.slots@.len() as int;
        &&& cap > 0
        &&& self.head < cap
        &&& self.tail < cap
        &&& self.count <= cap
        &&& self.tail == slot_of(self.head as int, self.count as int, cap)
        &&& forall|k: int|
            0 <= k < self.count ==> (#[trigger] self.slots@[slot_of(self.head as int, k, cap)]) is Some
        &&& forall|k: int|
            self.count <= k < cap ==> (#[trigger] self.slots@[slot_of(self.head as int, k, cap)]) is None
    }

    /// The count never leaves `[0, capacity]`.
    pub proof fn lemma_len_bounded(&self)
        requires
            self.wf(),
        ensures
            self@.len() <= self.capacity_spec(),
            self.capacity_spec() > 0,
    {
    }

    /// An empty ring of `capacity` slots.
    pub fn new(capacity: usize) -> (r: Self)
        requires
            capacity > 0,
        ensures
            r.wf(),
            r@ == Seq::<T>::empty(),
            r.capacity_spec() == capacity,
    {
        let mut slots: Vec<Option<T>> = Vec::new();
        let mut i: usize = 0;
        while i < capacity
            invariant
                i <= capacity,
                slots@.len() == i,
                forall|j: int| 0 <= j < i ==> (#[trigger] slots@[j]) is None,
            decreases capacity - i,
        {
            slots.push(None);
            i = i + 1;
        }
        let r = RingStorage { slots, head: 0, tail: 0, count: 0 };
        assert(r@ =~= Seq::<T>::empty());
        r
    }

    /// Number of slots.
    pub fn capacity(&self) -> (r: usize)
        requires
            self.wf(),
        ensures
            r == self.capacity_spec(),
    {
        self.slots.len()
    }

    /// Number of live items.
    pub fn len(&self) -> (r: usize)
        requires
            self.wf(),
        ensures
            r == self@.len(),
    {
        self.count
    }

    /// Whether every slot holds a live item.
    pub fn is_full(&self) -> (r: bool)
        requires
            self.wf(),
        ensures
            r == (self@.len() == self.capacity_spec()),
    {
        self.count == self.slots.len()
    }

    /// Whether no slot holds a live item.
    pub fn is_empty(&self) -> (r: bool)
        requires
            self.wf(),
        ensures
            r == (self@.len() == 0),
    {
        self.count == 0
    }

    /// Writes `item` at `tail` and advances `tail`. The ring must not be full.
    pub fn push(&mut self, item: T)
        requires
            old(self).wf(),
            old(self)@.len() < old(self).capacity_spec(),
        ensures
            final(self).wf(),
            final(self)@ == old(self)@.push(item),
            final(self).capacity_spec() == old(self).capacity_spec(),
    {
        let ghost cap = self.slots@.len() as int;
        let ghost h = self.head as int;
        let ghost n = self.count as int;
        let ghost before = *self;
        let t = self.tail;
        let len = self.slots.len();
        self.slots.set(t, Some(item));
        self.tail = if t + 1 == len {
            0
        } else {
            t + 1
        };
        self.count = self.count + 1;
        proof {
            assert forall|k: int| 0 <= k < n implies slot_of(h, k, cap) != t as int by {}
            assert forall|k: int| n < k < cap implies slot_of(h, k, cap) != t as int by {}
            assert(self@ =~= before@.push(item)) by {
                assert forall|k: int| 0 <= k < n implies #[trigger] self@[k] == before@[k] by {
                    assert(self.slots@[slot_of(h, k, cap)] == before.slots@[slot_of(h, k, cap)]);
                }
            }
            assert forall|k: int| 0 <= k < self.count implies
                (#[trigger] self.slots@[slot_of(h, k, cap)]) is Some by {
                if k < n {
                    assert(before.slots@[slot_of(h, k, cap)] is Some);
                }
            }
            assert forall|k: int| self.count <= k < cap implies
                (#[trigger] self.slots@[slot_of(h, k, cap)]) is None by {
                assert(before.slots@[slot_of(h, k, cap)] is None);
            }
        }
    }

    /// Takes the item at `head`, clears its slot and advances `head`.
    /// The ring must not be empty.
    pub fn pop(&mut self) -> (r: T)
        requires
            old(self).wf(),
            old(self)@.len() > 0,
        ensures
            final(self).wf(),
            r == old(self)@[0],
            final(self)@ == old(self)@.drop_first(),
            final(self).capacity_spec() == old(self).capacity_spec(),
    {
        let ghost cap = self.slots@.len() as int;
        let ghost h = self.head as int;
        let ghost n = self.count as int;
        let ghost before = *self;
        let h0 = self.head;
        let len = self.slots.len();
        proof {
            assert(before.slots@[slot_of(h, 0, cap)] is Some);
        }
        let mut taken: Option<T> = None;
        self.slots.set_and_swap(h0, &mut taken);
        self.head = if h0 + 1 == len {
            0
        } else {
            h0 + 1
        };
        self.count = self.count - 1;
        proof {
            let h1 = self.head as int;
            assert forall|k: int| 0 <= k < cap - 1 implies slot_of(h1, k, cap) == slot_of(h, k + 1, cap) by {}
            assert(slot_of(h1, cap - 1, cap) == h);
            assert(self@ =~= before@.drop_first()) by {
                assert forall|k: int| 0 <= k < n - 1 implies #[trigger] self@[k] == before@[k + 1] by {
                    assert(slot_of(h1, k, cap) == slot_of(h, k + 1, cap));
                }
            }
            assert forall|k: int| 0 <= k < self.count implies
                (#[trigger] self.slots@[slot_of(h1, k, cap)]) is Some by {
                assert(slot_of(h1, k, cap) == slot_of(h, k + 1, cap));
                assert(before.slots@[slot_of(h, k + 1, cap)] is Some);
            }
            assert forall|k: int| self.count <= k < cap implies
                (#[trigger] self.slots@[slot_of(h1, k, cap)]) is None by {
                if k < cap - 1 {
                    assert(slot_of(h1, k, cap) == slot_of(h, k + 1, cap));
                    assert(before.slots@[slot_of(h, k + 1, cap)] is None);
                }
            }
        }
        taken.unwrap()
    }
}

} // verus!
