//! A counter that many tasks bump through one exclusive handle.

use vstd::prelude::*;

verus! {

/// A counter shared between tasks; each bump happens under exclusive
/// access (a `&mut` borrow, or a lock held by the caller).
pub struct SharedCounter {
    pub counter: i32,
}

impl SharedCounter {
    /// A counter at zero.
    pub fn new() -> (r: Self)
        ensures
            r.counter == 0,
    {
        SharedCounter { counter: 0 }
    }

    /// Adds one. The counter must be below `i32::MAX`.
    pub fn increment(&mut self)
        requires
            old(self).counter < i32::MAX,
        ensures
            final(self).counter == old(self).counter + 1,
    {
        self.counter = self.counter + 1;
    }
}

/// Adds one to `shared`, which must be below `i32::MAX`.
pub fn increment_counter(shared: &mut SharedCounter)
    requires
        old(shared).counter < i32::MAX,
    ensures
        final(shared).counter == old(shared).counter + 1,
{
    shared.increment();
}

} // verus!
