//! Admission control: a counting semaphore with a fixed number of permits.

use vstd::prelude::*;

verus! {

/// A fixed number of permits, of which some are held.
pub struct Admission {
    capacity: usize,
    held: usize,
}

impl Admission {
    /// The number of permits that exist.
    pub closed spec fn capacity(&self) -> nat {
        self.capacity as nat
    }

    /// The number of permits that are held.
    pub closed spec fn held(&self) -> nat {
        self.held as nat
    }

    /// No more permits are held than exist.
    #[verifier::type_invariant]
    spec fn bounded(&self) -> bool {
        self.held <= self.capacity
    }

    /// A controller with `capacity` permits, none of them held.
    pub fn new(capacity: usize) -> (admission: Admission)
        ensures
            admission.capacity() == capacity,
            admission.held() == 0,
    {
        Admission { capacity, held: 0 }
    }

    /// Takes a permit if one is free. A permit that is held is never granted
    /// again before it is released: the call fails when all are held.
    pub fn try_acquire(&mut self) -> (granted: bool)
        ensures
            granted == (old(self).held() < old(self).capacity()),
            final(self).capacity() == old(self).capacity(),
            final(self).held() == old(self).held() + if granted { 1nat } else { 0nat },
            final(self).held() <= final(self).capacity(),
    {
        proof {
            use_type_invariant(&*self);
        }
        if self.held < self.capacity {
            self.held = self.held + 1;
            true
        } else {
            false
        }
    }

    /// Gives a held permit back. Fails when no permit is held.
    pub fn release(&mut self) -> (released: bool)
        ensures
            released == (old(self).held() > 0),
            final(self).capacity() == old(self).capacity(),
            final(self).held() == old(self).held() - if released { 1nat } else { 0nat },
            final(self).held() <= final(self).capacity(),
    {
        proof {
            use_type_invariant(&*self);
        }
        if self.held > 0 {
            self.held = self.held - 1;
            true
        } else {
            false
        }
    }

    /// The number of permits that exist.
    pub fn limit(&self) -> (n: usize)
        ensures
            n == self.capacity(),
    {
        self.capacity
    }

    /// The number of permits that are held.
    pub fn in_use(&self) -> (n: usize)
        ensures
            n == self.held(),
            n <= self.capacity(),
    {
        proof {
            use_type_invariant(self);
        }
        self.held
    }

    /// The number of permits that are free.
    pub fn available(&self) -> (n: usize)
        ensures
            n == self.capacity() - self.held(),
    {
        proof {
            use_type_invariant(self);
        }
        self.capacity - self.held
    }
}

} // verus!
