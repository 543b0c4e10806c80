//! Bookkeeping for the static heap arena: a region of fixed length that is
//! handed over once and never grows.

use vstd::prelude::*;

verus! {

/// Why the arena turned a request down.
#[derive(Clone, Copy, Debug, PartialEq, Eq, Structural)]
pub enum ArenaError {
    /// The arena was handed its region before.
    AlreadyInitialized,
    /// The region has no bytes.
    EmptyRegion,
    /// The arena has no region yet.
    Uninitialized,
    /// The region has too few bytes left.
    Exhausted,
}

/// The arena's books: the length of its region and how much of it is taken.
pub struct HeapArena {
    capacity: usize,
    used: usize,
    initialized: bool,
}

impl HeapArena {
    #[verifier::type_invariant]
    spec fn well_formed(self) -> bool {
        &&& self.used <= self.capacity
        &&& self.initialized <==> self.capacity > 0
    }

    /// Length of the region in bytes; zero before the region is handed over.
    pub closed spec fn capacity(&self) -> nat {
        self.capacity as nat
    }

    /// Bytes of the region that are taken.
    pub closed spec fn used(&self) -> nat {
        self.used as nat
    }

    /// Whether the region has been handed over.
    pub closed spec fn initialized(&self) -> bool {
        self.initialized
    }

    /// An arena without a region.
    pub fn empty() -> (arena: HeapArena)
        ensures
            !arena.initialized(),
            arena.capacity() == 0,
            arena.used() == 0,
    {
        HeapArena { capacity: 0, used: 0, initialized: false }
    }

    /// Whether the region has been handed over.
    pub fn is_initialized(&self) -> (initialized: bool)
        ensures
            initialized == self.initialized(),
    {
        self.initialized
    }

    /// Length of the region in bytes.
    pub fn capacity_bytes(&self) -> (capacity: usize)
        ensures
            capacity == self.capacity(),
    {
        self.capacity
    }

    /// Bytes of the region that are taken.
    pub fn used_bytes(&self) -> (used: usize)
        ensures
            used == self.used(),
            used <= self.capacity(),
    {
        proof {
            use_type_invariant(self);
        }
        self.used
    }

    /// Bytes of the region that are left.
    pub fn remaining_bytes(&self) -> (remaining: usize)
        ensures
            remaining == self.capacity() - self.used(),
    {
        proof {
            use_type_invariant(self);
        }
        self.capacity - self.used
    }

    /// Hands the arena its region of `size` bytes. This happens once: an
    /// arena that has its region keeps it, and a region without bytes is no
    /// region.
    pub fn init(&mut self, size: usize) -> (handed: Result<(), ArenaError>)
        ensures
            handed == if old(self).initialized() {
                Err::<(), ArenaError>(ArenaError::AlreadyInitialized)
            } else if size == 0 {
                Err::<(), ArenaError>(ArenaError::EmptyRegion)
            } else {
                Ok(())
            },
            handed is Ok ==> final(self).initialized() && final(self).capacity() == size
                && final(self).used() == 0,
            handed is Err ==> *final(self) == *old(self),
    {
        if self.initialized {
            Err(ArenaError::AlreadyInitialized)
        } else if size == 0 {
            Err(ArenaError::EmptyRegion)
        } else {
            *self = HeapArena { capacity: size, used: 0, initialized: true };
            Ok(())
        }
    }

    /// Takes `bytes` from the region and returns the offset at which they
    /// start. What is taken never exceeds the region: a request for more
    /// than is left is turned down and changes nothing.
    pub fn allocate(&mut self, bytes: usize) -> (taken: Result<usize, ArenaError>)
        ensures
            taken == if !old(self).initialized() {
                Err::<usize, ArenaError>(ArenaError::Uninitialized)
            } else if bytes > old(self).capacity() - old(self).used() {
                Err::<usize, ArenaError>(ArenaError::Exhausted)
            } else {
                Ok(old(self).used() as usize)
            },
            final(self).capacity() == old(self).capacity(),
            final(self).initialized() == old(self).initialized(),
            final(self).used() == old(self).used() + if taken is Ok {
                bytes as nat
            } else {
                0nat
            },
            final(self).used() <= final(self).capacity(),
    {
        proof {
            use_type_invariant(&*self);
        }
        if !self.initialized {
            Err(ArenaError::Uninitialized)
        } else if bytes > self.capacity - self.used {
            Err(ArenaError::Exhausted)
        } else {
            let offset = self.used;
            *self = HeapArena {
                capacity: self.capacity,
                used: self.used + bytes,
                initialized: true,
            };
            Ok(offset)
        }
    }
}

} // verus!
