//! The bounded buffer that producers and consumers share: ring storage
//! plus a closed flag, with the decisions of each operation.
//!
//! Every method here completes at once. A caller that wants to block holds
//! the buffer under a lock and waits on a condition whenever a method
//! answers `WouldBlock`, then calls it again.

use vstd::prelude::*;
use crate::ring::RingStorage;

verus! {

/// Capacity of the buffer in the classic producer/consumer demonstration.
pub const BUF_SIZE: usize = 7;

/// Why an insertion or a removal did not happen.
#[derive(PartialEq, Eq, Structural, Clone, Copy, Debug)]
pub enum BufferError {
    /// The buffer was full (insert) or empty (remove); retry later.
    WouldBlock,
    /// A blocking call passed its deadline.
    Timeout,
    /// The buffer was shut down; final for that side.
    Closed,
}

/// What a blocking caller does after the buffer refused it.
#[derive(PartialEq, Eq, Structural, Clone, Copy, Debug)]
pub enum WaitStep {
    /// Park on the matching condition, then try again.
    Wait,
    /// Stop and report this error; the buffer is as the refusal left it.
    Finish(BufferError),
}

/// The step after a refusal `e`: a `WouldBlock` means wait, or `Timeout`
/// once the caller's deadline has passed; any other refusal is final.
pub fn after_refusal(e: BufferError, deadline_passed: bool) -> (r: WaitStep)
    ensures
        r == (if e == BufferError::WouldBlock {
            if deadline_passed {
                WaitStep::Finish(BufferError::Timeout)
            } else {
                WaitStep::Wait
            }
        } else {
            WaitStep::Finish(e)
        }),
{
    match e {
        BufferError::WouldBlock => {
            if deadline_passed {
                WaitStep::Finish(BufferError::Timeout)
            } else {
                WaitStep::Wait
            }
        },
        _ => WaitStep::Finish(e),
    }
}

/// A bounded FIFO buffer with a shutdown flag.
pub struct Buffer<T> {
    ring: RingStorage<T>,
    closed: bool,
    /// Every item ever accepted, in order of acceptance.
    inserted: Ghost<Seq<T>>,
    /// Every item ever handed out, in order of removal.
    removed: Ghost<Seq<T>>,
}

impl<T> View for Buffer<T> {
    type V = Seq<T>;

    /// The buffered items, oldest first.
    closed spec fn view(&self) -> Seq<T> {
        self.ring@
    }
}

impl<T> Buffer<T> {
    /// Number of slots, fixed at construction.
    pub closed spec fn capacity_spec(&self) -> nat {
        self.ring.capacity_spec()
    }

    /// Whether the buffer has been shut down.
    pub closed spec fn is_closed_spec(&self) -> bool {
        self.closed
    }

    /// Every item accepted so far, in order.
    pub closed spec fn inserted_spec(&self) -> Seq<T> {
        self.inserted@
    }

    /// Every item handed out so far, in order.
    pub closed spec fn removed_spec(&self) -> Seq<T> {
        self.removed@
    }

    /// Well-formedness: the storage is well formed and what was handed
    /// out, followed by what is held, is exactly what was accepted.
    pub closed spec fn wf(&self) -> bool {
        &&& self.ring.wf()
        &&& self.removed@ + self.ring@ == self.inserted@
    }

    /// What an insertion does in this state: refuse because the buffer is
    /// closed (even when there is room), wait because it is full, or go on.
    pub open spec fn insert_verdict(&self) -> Result<(), BufferError> {
        if self.is_closed_spec() {
            Err(BufferError::Closed)
        } else if self@.len() >= self.capacity_spec() {
            Err(BufferError::WouldBlock)
        } else {
            Ok(())
        }
    }

    /// What a removal does in this state: go on while an item is held
    /// (closed or not), else refuse if closed, else wait.
    pub open spec fn remove_verdict(&self) -> Result<(), BufferError> {
        if self@.len() > 0 {
            Ok(())
        } else if self.is_closed_spec() {
            Err(BufferError::Closed)
        } else {
            Err(BufferError::WouldBlock)
        }
    }

    /// An open, empty buffer of `capacity` slots; `None` when `capacity`
    /// is zero.
    pub fn new(capacity: usize) -> (r: Option<Self>)
        ensures
            r is None <==> capacity == 0,
            r matches Some(b) ==> {
                &&& b.wf()
                &&& b@ == Seq::<T>::empty()
                &&& b.capacity_spec() == capacity
                &&& !b.is_closed_spec()
                &&& b.inserted_spec() == Seq::<T>::empty()
                &&& b.removed_spec() == Seq::<T>::empty()
            },
    {
        if capacity == 0 {
            return None;
        }
        let ring = RingStorage::new(capacity);
        let b = Buffer { ring, closed: false, inserted: Ghost(Seq::empty()), removed: Ghost(Seq::empty()) };
        assert(b.removed@ + b.ring@ =~= b.inserted@);
        Some(b)
    }

    /// Number of slots.
    pub fn capacity(&self) -> (r: usize)
        requires
            self.wf(),
        ensures
            r == self.capacity_spec(),
    {
        self.ring.capacity()
    }

    /// Number of buffered items.
    pub fn count(&self) -> (r: usize)
        requires
            self.wf(),
        ensures
            r == self@.len(),
    {
        self.ring.len()
    }

    /// Whether every slot is taken.
    pub fn is_full(&self) -> (r: bool)
        requires
            self.wf(),
        ensures
            r == (self@.len() == self.capacity_spec()),
    {
        self.ring.is_full()
    }

    /// Whether no item is buffered.
    pub fn is_empty(&self) -> (r: bool)
        requires
            self.wf(),
        ensures
            r == (self@.len() == 0),
    {
        self.ring.is_empty()
    }

    /// Whether the buffer has been shut down.
    pub fn is_closed(&self) -> (r: bool)
        ensures
            r == self.is_closed_spec(),
    {
        self.closed
    }

    /// Appends `item` unless the buffer is closed or full. On refusal the
    /// buffer is left as it was and `item` comes back with the reason, so
    /// that a blocking caller can wait and try again.
    pub fn insert_item(&mut self, item: T) -> (r: Result<(), (BufferError, T)>)
        requires
            old(self).wf(),
        ensures
            final(self).wf(),
            final(self).capacity_spec() == old(self).capacity_spec(),
            final(self).is_closed_spec() == old(self).is_closed_spec(),
            final(self).removed_spec() == old(self).removed_spec(),
            match r {
                Ok(()) => {
                    &&& old(self).insert_verdict() == Ok::<(), BufferError>(())
                    &&& final(self)@ == old(self)@.push(item)
                    &&& final(self).inserted_spec() == old(self).inserted_spec().push(item)
                },
                Err((e, back)) => {
                    &&& old(self).insert_verdict() == Err::<(), BufferError>(e)
                    &&& back == item
                    &&& final(self)@ == old(self)@
                    &&& final(self).inserted_spec() == old(self).inserted_spec()
                },
            },
    {
        proof {
            self.ring.lemma_len_bounded();
        }
        if self.closed {
            return Err((BufferError::Closed, item));
        }
        if self.ring.is_full() {
            return Err((BufferError::WouldBlock, item));
        }
        let ghost before = *self;
        self.ring.push(item);
        self.inserted = Ghost(self.inserted@.push(item));
        assert(self.removed@ + self.ring@ =~= self.inserted@) by {
            assert(before.removed@ + before.ring@ == before.inserted@);
        }
        Ok(())
    }

    /// Takes the oldest item if there is one, whether or not the buffer is
    /// closed. Otherwise the buffer is left as it was and the reason is
    /// `Closed` after shutdown and `WouldBlock` before.
    pub fn remove_item(&mut self) -> (r: Result<T, BufferError>)
        requires
            old(self).wf(),
        ensures
            final(self).wf(),
            final(self).capacity_spec() == old(self).capacity_spec(),
            final(self).is_closed_spec() == old(self).is_closed_spec(),
            final(self).inserted_spec() == old(self).inserted_spec(),
            match r {
                Ok(x) => {
                    &&& old(self).remove_verdict() == Ok::<(), BufferError>(())
                    &&& x == old(self)@[0]
                    &&& final(self)@ == old(self)@.drop_first()
                    &&& final(self).removed_spec() == old(self).removed_spec().push(x)
                },
                Err(e) => {
                    &&& old(self).remove_verdict() == Err::<(), BufferError>(e)
                    &&& final(self)@ == old(self)@
                    &&& final(self).removed_spec() == old(self).removed_spec()
                },
            },
    {
        if self.ring.is_empty() {
            if self.closed {
                return Err(BufferError::Closed);
            }
            return Err(BufferError::WouldBlock);
        }
        let ghost before = *self;
        let x = self.ring.pop();
        self.removed = Ghost(self.removed@.push(x));
        assert(self.removed@ + self.ring@ =~= self.inserted@) by {
            assert(before.removed@ + before.ring@ == before.inserted@);
            assert(before.ring@ =~= seq![x] + self.ring@);
        }
        Ok(x)
    }

    /// Shuts the buffer down. Buffered items stay for removal; closing
    /// twice is the same as closing once.
    pub fn close(&mut self)
        requires
            old(self).wf(),
        ensures
            final(self).wf(),
            final(self).is_closed_spec(),
            final(self)@ == old(self)@,
            final(self).capacity_spec() == old(self).capacity_spec(),
            final(self).inserted_spec() == old(self).inserted_spec(),
            final(self).removed_spec() == old(self).removed_spec(),
    {
        self.closed = true;
    }

    /// In every reachable state the count lies in `[0, capacity]`, and the
    /// capacity is positive.
    pub proof fn lemma_count_bounded(&self)
        requires
            self.wf(),
        ensures
            0 <= self@.len() <= self.capacity_spec(),
            self.capacity_spec() > 0,
    {
        self.ring.lemma_len_bounded();
    }

    /// Items leave in the order in which they came in: what was handed out
    /// is a prefix of what was accepted, and the buffer holds the rest.
    /// Once as many items were removed as were inserted, the removed
    /// sequence is the inserted one and the buffer is empty.
    pub proof fn lemma_fifo(&self)
        requires
            self.wf(),
        ensures
            self.removed_spec().len() <= self.inserted_spec().len(),
            self.removed_spec() == self.inserted_spec().take(self.removed_spec().len() as int),
            self@ == self.inserted_spec().skip(self.removed_spec().len() as int),
            self.removed_spec().len() == self.inserted_spec().len() ==> {
                &&& self.removed_spec() == self.inserted_spec()
                &&& self@.len() == 0
            },
    {
        let r = self.removed@;
        let i = self.inserted@;
        assert(r =~= i.take(r.len() as int));
        assert(self.ring@ =~= i.skip(r.len() as int));
        if r.len() == i.len() {
            assert(r =~= i);
        }
    }

    /// After shutdown every insertion is refused with `Closed`; a removal
    /// goes on while items remain and is refused with `Closed` once the
    /// buffer is empty.
    pub proof fn lemma_shutdown(&self)
        requires
            self.wf(),
            self.is_closed_spec(),
        ensures
            self.insert_verdict() == Err::<(), BufferError>(BufferError::Closed),
            self@.len() > 0 ==> self.remove_verdict() == Ok::<(), BufferError>(()),
            self@.len() == 0 ==> self.remove_verdict() == Err::<(), BufferError>(BufferError::Closed),
    {
    }

    /// While the buffer is open, a producer and a consumer are never both
    /// told to wait: with a positive capacity it cannot be full and empty
    /// at once.
    pub proof fn lemma_never_both_wait(&self)
        requires
            self.wf(),
            !self.is_closed_spec(),
        ensures
            self.insert_verdict() is Ok || self.remove_verdict() is Ok,
    {
        self.ring.lemma_len_bounded();
    }
}

} // verus!
