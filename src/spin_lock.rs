//! A spin lock over one boolean flag: a thread swaps `true` into the flag
//! until the swap returns `false`, and stores `false` to release.
use vstd::prelude::*;

verus! {

/// Whether a swap of `true` into the flag that returned `previous` took the
/// lock.
pub fn flag_taken(previous: bool) -> (r: bool)
    ensures
        r == !previous,
{
    !previous
}

/// A spin lock and the value it guards.
pub struct SpinLock<T> {
    locked: bool,
    value: T,
}

/// Proof that the spin lock is held.
pub struct Guard {
    seal: (),
}

impl<T> SpinLock<T> {
    /// The flag.
    pub closed spec fn is_locked(&self) -> bool {
        self.locked
    }

    /// The guarded value.
    pub closed spec fn value(&self) -> T {
        self.value
    }

    /// A free spin lock guarding `value`.
    pub fn new(value: T) -> (r: Self)
        ensures
            !r.is_locked(),
            r.value() == value,
    {
        SpinLock { locked: false, value }
    }

    /// One swap of the flag: it takes the lock exactly when the lock was
    /// free, and leaves the flag set either way; a thread that is refused
    /// spins and swaps again.
    pub fn lock(&mut self) -> (r: Option<Guard>)
        ensures
            final(self).is_locked(),
            final(self).value() == old(self).value(),
            r is Some <==> !old(self).is_locked(),
    {
        let previous = self.locked;
        self.locked = true;
        if flag_taken(previous) {
            Some(Guard { seal: () })
        } else {
            None
        }
    }

    /// Releases the lock.
    pub fn unlock(&mut self, guard: Guard)
        requires
            old(self).is_locked(),
        ensures
            !final(self).is_locked(),
            final(self).value() == old(self).value(),
    {
        self.locked = false;
    }

    /// Reads the guarded value while the lock is held.
    pub fn get(&self, guard: &Guard) -> (r: &T)
        requires
            self.is_locked(),
        ensures
            *r == self.value(),
    {
        &self.value
    }

    /// Replaces the guarded value while the lock is held.
    pub fn set(&mut self, guard: &Guard, value: T)
        requires
            old(self).is_locked(),
        ensures
            final(self).is_locked(),
            final(self).value() == value,
    {
        self.value = value;
    }
}

} // verus!
