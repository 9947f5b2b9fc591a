//! Counting semaphores.
//!
//! A semaphore counts the units of a resource that are free. This module
//! keeps the count; putting a task to sleep until a unit is free, and waking
//! it, is the part of the wait queue that the kernel keeps beside it.

use vstd::prelude::*;

verus! {

/// A counting semaphore.
#[derive(Debug)]
pub struct Semaphore {
    count: usize,
}

/// One unit of a semaphore in the hands of a task, to be given back once.
#[derive(Debug)]
pub struct SemaphoreGuard {
    released: bool,
}

impl SemaphoreGuard {
    /// Whether the unit has been given back.
    pub closed spec fn spec_released(&self) -> bool {
        self.released
    }

    /// Whether the unit has been given back.
    #[verifier::when_used_as_spec(spec_released)]
    pub fn released(&self) -> (r: bool)
        ensures
            r == self.released(),
    {
        self.released
    }
}

impl Semaphore {
    /// The number of units that are free.
    pub closed spec fn spec_count(&self) -> usize {
        self.count
    }

    /// A semaphore with `count` free units.
    pub fn new(count: usize) -> (sem: Semaphore)
        ensures
            sem.count() == count,
    {
        Self { count }
    }

    /// The number of units that are free.
    #[verifier::when_used_as_spec(spec_count)]
    pub fn count(&self) -> (n: usize)
        ensures
            n == self.count(),
    {
        self.count
    }

    /// Takes a unit if one is free. A task that is to sleep until a unit is
    /// free repeats this each time it is woken.
    pub fn try_acquire(&mut self) -> (guard: Option<SemaphoreGuard>)
        ensures
            guard is Some <==> old(self).count() > 0,
            guard matches Some(g) ==> !g.released(),
            final(self).count() == if guard is Some {
                old(self).count() - 1
            } else {
                old(self).count() as int
            },
    {
        if self.count > 0 {
            self.count -= 1;
            Some(SemaphoreGuard { released: false })
        } else {
            None
        }
    }

    /// Gives a unit back. The caller then wakes one task that waits.
    pub fn release(&mut self)
        requires
            old(self).count() < usize::MAX,
        ensures
            final(self).count() == old(self).count() + 1,
    {
        self.count += 1;
    }

    /// Gives back the unit that `guard` holds, unless it has been given
    /// back, and says whether a unit went back: what happens when a guard
    /// goes out of use.
    pub fn drop_guard(&mut self, guard: &mut SemaphoreGuard) -> (given_back: bool)
        requires
            old(self).count() < usize::MAX,
        ensures
            given_back == !old(guard).released(),
            final(guard).released(),
            final(self).count() == if given_back {
                old(self).count() + 1
            } else {
                old(self).count() as int
            },
    {
        if !guard.released {
            self.release();
            guard.released = true;
            true
        } else {
            false
        }
    }
}

} // verus!
