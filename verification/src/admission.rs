//! Admission control: a counter of permits that bounds how many probes are in
//! flight at once.

use vstd::prelude::*;

verus! {

/// The number of permits that a bound on the probes in flight stands for: the
/// bound itself, and one where the bound is zero, so that a scan can always
/// go on.
pub open spec fn permits_for(bound: usize) -> usize {
    if bound == 0 {
        1
    } else {
        bound
    }
}

/// The number of permits that a bound on the probes in flight stands for.
pub fn permits_of(bound: usize) -> (r: usize)
    ensures
        r == permits_for(bound),
        r >= 1,
{
    if bound == 0 {
        1
    } else {
        bound
    }
}

/// A fixed number of permits. A probe holds one from its start to its end.
#[derive(Debug)]
pub struct AdmissionSemaphore {
    capacity: usize,
    in_use: usize,
}

impl AdmissionSemaphore {
    #[verifier::type_invariant]
    spec fn within_capacity(self) -> bool {
        self.in_use <= self.capacity
    }

    /// The number of permits there are.
    pub closed spec fn spec_capacity(&self) -> usize {
        self.capacity
    }

    /// The number of permits that are held.
    pub closed spec fn spec_in_use(&self) -> usize {
        self.in_use
    }

    /// A semaphore of `capacity` permits, none of them held.
    pub fn new(capacity: usize) -> (r: AdmissionSemaphore)
        ensures
            r.spec_capacity() == capacity,
            r.spec_in_use() == 0,
    {
        AdmissionSemaphore { capacity, in_use: 0 }
    }

    /// The number of permits there are.
    #[verifier::when_used_as_spec(spec_capacity)]
    pub fn capacity(&self) -> (r: usize)
        ensures
            r == self.spec_capacity(),
    {
        self.capacity
    }

    /// The number of permits that are held. It never exceeds the capacity.
    #[verifier::when_used_as_spec(spec_in_use)]
    pub fn in_use(&self) -> (r: usize)
        ensures
            r == self.spec_in_use(),
            r <= self.spec_capacity(),
    {
        proof {
            use_type_invariant(self);
        }
        self.in_use
    }

    /// Takes a permit if one is free, and says whether it did. It never
    /// hands out more permits than there are.
    pub fn try_acquire(&mut self) -> (granted: bool)
        ensures
            final(self).spec_capacity() == old(self).spec_capacity(),
            granted == (old(self).spec_in_use() < old(self).spec_capacity()),
            final(self).spec_in_use() == if granted {
                old(self).spec_in_use() + 1
            } else {
                old(self).spec_in_use() as int
            },
    {
        if self.in_use < self.capacity {
            self.in_use = self.in_use + 1;
            true
        } else {
            false
        }
    }

    /// Gives a permit back, and says whether one was held.
    pub fn release(&mut self) -> (released: bool)
        ensures
            final(self).spec_capacity() == old(self).spec_capacity(),
            released == (old(self).spec_in_use() > 0),
            final(self).spec_in_use() == if released {
                old(self).spec_in_use() - 1
            } else {
                old(self).spec_in_use() as int
            },
    {
        proof {
            use_type_invariant(&*self);
        }
        if self.in_use > 0 {
            self.in_use = self.in_use - 1;
            true
        } else {
            false
        }
    }
}

} // verus!
