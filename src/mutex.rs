//! A blocking mutex over a three-valued lock word.
//!
//! The word is [`UNLOCKED`], [`LOCKED`] (held, nobody waits) or [`CONTENDED`]
//! (held, and some thread may be parked on the word). A thread first tries to
//! move the word from unlocked to locked; failing that, it spins a little,
//! then swaps in the contended value and parks until the swap finds the word
//! unlocked. Releasing swaps the word back to unlocked and wakes one parked
//! thread when the word was contended.
use vstd::prelude::*;

verus! {

/// The lock is free.
pub const UNLOCKED: u32 = 0;
/// The lock is held and no thread waits for it.
pub const LOCKED: u32 = 1;
/// The lock is held and threads may wait for it.
pub const CONTENDED: u32 = 2;
/// How many times a contending thread reads the word before it parks.
pub const SPIN_LIMIT: u32 = 100;

/// Whether a contending thread that read `observed` after `spins` rounds
/// keeps spinning rather than trying to take the lock.
pub fn keep_spinning(observed: u32, spins: u32) -> (r: bool)
    ensures
        r == (observed == LOCKED && spins < SPIN_LIMIT),
{
    observed == LOCKED && spins < SPIN_LIMIT
}

/// Whether a swap of the word that returned `previous` took the lock.
pub fn acquired_by_swap(previous: u32) -> (r: bool)
    ensures
        r == (previous == UNLOCKED),
{
    previous == UNLOCKED
}

/// Whether a release that swapped `previous` out of the word must wake a
/// parked thread.
pub fn must_wake(previous: u32) -> (r: bool)
    ensures
        r == (previous == CONTENDED),
{
    previous == CONTENDED
}

/// One atomic step on the lock word.
pub enum LockOp {
    /// Compare-and-swap from unlocked to locked.
    Lock,
    /// Swap in the contended value, after a failed attempt or a wake-up.
    Relock,
    /// Swap in the unlocked value.
    Unlock,
}

/// The word after the step.
pub open spec fn lock_next(word: u32, op: LockOp) -> u32 {
    match op {
        LockOp::Lock => if word == UNLOCKED { LOCKED } else { CONTENDED },
        LockOp::Relock => CONTENDED,
        LockOp::Unlock => UNLOCKED,
    }
}

/// Whether the step takes the lock.
pub open spec fn lock_takes(word: u32, op: LockOp) -> bool {
    op != LockOp::Unlock && word == UNLOCKED
}

/// The word after the steps of `ops` in order.
pub open spec fn lock_run(word: u32, ops: Seq<LockOp>) -> u32
    decreases ops.len(),
{
    if ops.len() == 0 {
        word
    } else {
        lock_run(lock_next(word, ops[0]), ops.drop_first())
    }
}

/// A mutex and the value it guards.
pub struct Mutex<T> {
    state: u32,
    value: T,
}

/// Proof that the lock is held, handed out when it is taken and given back
/// to release it.
pub struct MutexGuard {
    seal: (),
}

impl<T> Mutex<T> {
    /// The lock word.
    pub closed spec fn word(&self) -> u32 {
        self.state
    }

    /// The guarded value.
    pub closed spec fn value(&self) -> T {
        self.value
    }

    /// The lock word holds one of its three values.
    pub closed spec fn wf(&self) -> bool {
        self.state <= CONTENDED
    }

    /// An unlocked mutex guarding `value`.
    pub fn new(value: T) -> (r: Self)
        ensures
            r.wf(),
            r.word() == UNLOCKED,
            r.value() == value,
    {
        Mutex { state: UNLOCKED, value }
    }

    /// The first attempt of a thread at the lock: it takes the lock exactly
    /// when the lock is free; otherwise the word is marked contended and the
    /// thread parks until a release wakes it, then calls [`Mutex::relock`].
    pub fn lock(&mut self) -> (r: Option<MutexGuard>)
        requires
            old(self).wf(),
        ensures
            final(self).wf(),
            final(self).word() == lock_next(old(self).word(), LockOp::Lock),
            final(self).value() == old(self).value(),
            r is Some <==> lock_takes(old(self).word(), LockOp::Lock),
    {
        if self.state == UNLOCKED {
            self.state = LOCKED;
            Some(MutexGuard { seal: () })
        } else {
            self.state = CONTENDED;
            None
        }
    }

    /// A later attempt, by a thread that was woken: it swaps in the contended
    /// value and holds the lock when the word was unlocked.
    pub fn relock(&mut self) -> (r: Option<MutexGuard>)
        requires
            old(self).wf(),
        ensures
            final(self).wf(),
            final(self).word() == lock_next(old(self).word(), LockOp::Relock),
            final(self).value() == old(self).value(),
            r is Some <==> lock_takes(old(self).word(), LockOp::Relock),
    {
        let previous = self.state;
        self.state = CONTENDED;
        if acquired_by_swap(previous) {
            Some(MutexGuard { seal: () })
        } else {
            None
        }
    }

    /// Releases the lock; the result says whether a parked thread is woken.
    pub fn unlock(&mut self, guard: MutexGuard) -> (r: bool)
        requires
            old(self).wf(),
            old(self).word() != UNLOCKED,
        ensures
            final(self).wf(),
            final(self).word() == UNLOCKED,
            final(self).value() == old(self).value(),
            r == (old(self).word() == CONTENDED),
    {
        let previous = self.state;
        self.state = UNLOCKED;
        must_wake(previous)
    }

    /// Reads the guarded value while the lock is held.
    pub fn get(&self, guard: &MutexGuard) -> (r: &T)
        requires
            self.word() != UNLOCKED,
        ensures
            *r == self.value(),
    {
        &self.value
    }

    /// Replaces the guarded value while the lock is held.
    pub fn set(&mut self, guard: &MutexGuard, value: T)
        requires
            old(self).wf(),
            old(self).word() != UNLOCKED,
        ensures
            final(self).wf(),
            final(self).word() == old(self).word(),
            final(self).value() == value,
    {
        self.value = value;
    }
}

/// A thread that has found the lock held is woken by the next release:
/// whatever attempts other threads make meanwhile, the word stays held and
/// marked contended, so none of them takes the lock, and the release of a
/// contended word wakes a parked thread.
pub proof fn lemma_waiter_is_woken(word: u32, ops: Seq<LockOp>)
    requires
        word != UNLOCKED,
        forall|i: int| 0 <= i < ops.len() ==> ops[i] != LockOp::Unlock,
    ensures
        lock_run(lock_next(word, LockOp::Lock), ops) == CONTENDED,
        lock_run(lock_next(word, LockOp::Relock), ops) == CONTENDED,
        lock_run(word, ops) != UNLOCKED,
    decreases ops.len(),
{
    if ops.len() > 0 {
        let rest = ops.drop_first();
        assert forall|i: int| 0 <= i < rest.len() implies rest[i] != LockOp::Unlock by {
            assert(rest[i] == ops[i + 1]);
        }
        lemma_waiter_is_woken(CONTENDED, rest);
    }
}

} // verus!
