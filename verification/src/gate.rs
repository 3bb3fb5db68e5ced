//! The concurrency gate: a counting pool of permits.

use vstd::prelude::*;

verus! {

/// A pool of `capacity` permits of which `held` are out.
///
/// A gate never suspends anybody: `try_acquire` answers at once, and the
/// coordinator keeps those that were turned away in its queue.
#[derive(Debug)]
pub struct Gate {
    capacity: usize,
    held: usize,
}

impl Gate {
    /// The number of permits that this gate was made with.
    pub closed spec fn spec_capacity(&self) -> nat {
        self.capacity as nat
    }

    /// The number of permits that are out.
    pub closed spec fn spec_held(&self) -> nat {
        self.held as nat
    }

    /// A gate has at least one permit and never more out than it has.
    pub open spec fn wf(&self) -> bool {
        1 <= self.spec_capacity() && self.spec_held() <= self.spec_capacity()
    }

    /// A gate with `max_concurrency` permits, or with one where none was asked for.
    pub fn new(max_concurrency: usize) -> (gate: Gate)
        ensures
            gate.wf(),
            gate.spec_held() == 0,
            gate.spec_capacity() == if max_concurrency == 0 { 1nat } else { max_concurrency as nat },
    {
        let capacity: usize = if max_concurrency == 0 { 1 } else { max_concurrency };
        Gate { capacity, held: 0 }
    }

    /// The number of permits of this gate.
    pub fn capacity(&self) -> (n: usize)
        ensures
            n == self.spec_capacity(),
    {
        self.capacity
    }

    /// The number of permits that are out.
    pub fn held(&self) -> (n: usize)
        ensures
            n == self.spec_held(),
    {
        self.held
    }

    /// The number of permits that can still be taken.
    pub fn available(&self) -> (n: usize)
        requires
            self.wf(),
        ensures
            n == self.spec_capacity() - self.spec_held(),
    {
        self.capacity - self.held
    }

    /// Takes a permit if one is free. Says whether it did.
    pub fn try_acquire(&mut self) -> (granted: bool)
        requires
            old(self).wf(),
        ensures
            final(self).wf(),
            final(self).spec_capacity() == old(self).spec_capacity(),
            granted == (old(self).spec_held() < old(self).spec_capacity()),
            final(self).spec_held() == if granted { old(self).spec_held() + 1 } else { old(self).spec_held() },
    {
        if self.held < self.capacity {
            self.held = self.held + 1;
            true
        } else {
            false
        }
    }

    /// Gives a permit back. Says whether one was out.
    pub fn release(&mut self) -> (returned: bool)
        requires
            old(self).wf(),
        ensures
            final(self).wf(),
            final(self).spec_capacity() == old(self).spec_capacity(),
            returned == (old(self).spec_held() > 0),
            final(self).spec_held() == if returned { old(self).spec_held() - 1 } else { 0 },
    {
        if self.held > 0 {
            self.held = self.held - 1;
            true
        } else {
            false
        }
    }
}

} // verus!
