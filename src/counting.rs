//! Threads that each add one to a shared counter a fixed number of times,
//! reading and writing it under the mutex of [`crate::mutex`], with every
//! step interleaved in any order.
use vstd::prelude::*;
use crate::mutex::{lock_next, lock_takes, LockOp, UNLOCKED};

verus! {

/// Where a thread is in its round.
pub enum Pc {
    /// Not holding the lock, and not yet refused it.
    Idle,
    /// Refused the lock once, and parked or about to retry.
    Waiting,
    /// Holding the lock.
    Holding,
    /// Holding the lock, having read the counter.
    Read(int),
}

/// One thread: where it is, and how many rounds it has finished.
pub struct Worker {
    pub pc: Pc,
    pub done: nat,
}

/// The lock word, the counter, and the threads.
pub struct Counting {
    pub word: u32,
    pub counter: int,
    pub rounds: nat,
    pub workers: Seq<Worker>,
}

/// Whether a thread holds the lock.
pub open spec fn holds(w: Worker) -> bool {
    w.pc is Holding || w.pc is Read
}

/// The rounds finished by all threads together.
pub open spec fn total_done(ws: Seq<Worker>) -> int
    decreases ws.len(),
{
    if ws.len() == 0 {
        0
    } else {
        total_done(ws.drop_last()) + ws.last().done
    }
}

impl Counting {
    /// `n` threads that are each to finish `rounds` rounds, none begun.
    pub open spec fn initial(n: nat, rounds: nat) -> Counting {
        Counting {
            word: UNLOCKED,
            counter: 0,
            rounds,
            workers: Seq::new(n, |i: int| Worker { pc: Pc::Idle, done: 0 }),
        }
    }

    /// One atomic step of thread `i`; a thread that is done, or an index
    /// outside the threads, changes nothing.
    pub open spec fn step(self, i: int) -> Counting {
        if 0 <= i < self.workers.len() {
            let w = self.workers[i];
            match w.pc {
                Pc::Idle => if w.done >= self.rounds {
                    self
                } else {
                    let pc = if lock_takes(self.word, LockOp::Lock) { Pc::Holding } else { Pc::Waiting };
                    Counting {
                        word: lock_next(self.word, LockOp::Lock),
                        workers: self.workers.update(i, Worker { pc, ..w }),
                        ..self
                    }
                },
                Pc::Waiting => {
                    let pc = if lock_takes(self.word, LockOp::Relock) { Pc::Holding } else { Pc::Waiting };
                    Counting {
                        word: lock_next(self.word, LockOp::Relock),
                        workers: self.workers.update(i, Worker { pc, ..w }),
                        ..self
                    }
                },
                Pc::Holding => Counting {
                    workers: self.workers.update(i, Worker { pc: Pc::Read(self.counter), ..w }),
                    ..self
                },
                Pc::Read(v) => Counting {
                    word: lock_next(self.word, LockOp::Unlock),
                    counter: v + 1,
                    workers: self.workers.update(i, Worker { pc: Pc::Idle, done: w.done + 1 }),
                    ..self
                },
            }
        } else {
            self
        }
    }

    /// The state after the threads of `schedule` each take a step, in order.
    pub open spec fn run(self, schedule: Seq<int>) -> Counting
        decreases schedule.len(),
    {
        if schedule.len() == 0 {
            self
        } else {
            self.step(schedule[0]).run(schedule.drop_first())
        }
    }

    /// At most one thread holds the lock, the word says whether one does, a
    /// thread that has read the counter read its present value, and the
    /// counter is the number of rounds finished.
    pub open spec fn inv(self) -> bool {
        &&& (self.word == UNLOCKED) <==> (forall|i: int| 0 <= i < self.workers.len() ==> !holds(#[trigger] self.workers[i]))
        &&& forall|i: int, j: int|
            0 <= i < self.workers.len() && 0 <= j < self.workers.len() && holds(#[trigger] self.workers[i]) && holds(#[trigger] self.workers[j]) ==> i == j
        &&& forall|i: int| 0 <= i < self.workers.len() && (#[trigger] self.workers[i]).pc is Read ==> self.workers[i].pc->Read_0 == self.counter
        &&& self.counter == total_done(self.workers)
    }
}

proof fn lemma_total_done_update(ws: Seq<Worker>, i: int, w: Worker)
    requires
        0 <= i < ws.len(),
    ensures
        total_done(ws.update(i, w)) == total_done(ws) - ws[i].done + w.done,
    decreases ws.len(),
{
    let u = ws.update(i, w);
    if i == ws.len() - 1 {
        assert(u.drop_last() =~= ws.drop_last());
    } else {
        assert(u.drop_last() =~= ws.drop_last().update(i, w));
        lemma_total_done_update(ws.drop_last(), i, w);
    }
}

proof fn lemma_total_done_all(ws: Seq<Worker>, rounds: nat)
    requires
        forall|i: int| 0 <= i < ws.len() ==> (#[trigger] ws[i]).done == rounds,
    ensures
        total_done(ws) == ws.len() * rounds,
    decreases ws.len(),
{
    if ws.len() > 0 {
        let d = ws.drop_last();
        assert forall|i: int| 0 <= i < d.len() implies (#[trigger] d[i]).done == rounds by {
            assert(d[i] == ws[i]);
        }
        lemma_total_done_all(d, rounds);
        assert(total_done(ws) == d.len() * rounds + rounds);
        assert(d.len() * rounds + rounds == ws.len() * rounds) by (nonlinear_arith)
            requires
                d.len() + 1 == ws.len(),
        ;
    }
}

proof fn lemma_total_done_zero(n: nat)
    ensures
        total_done(Seq::new(n, |i: int| Worker { pc: Pc::Idle, done: 0 })) == 0,
    decreases n,
{
    if n > 0 {
        let ws = Seq::new(n, |i: int| Worker { pc: Pc::Idle, done: 0 });
        assert(ws.drop_last() =~= Seq::new((n - 1) as nat, |i: int| Worker { pc: Pc::Idle, done: 0 }));
        lemma_total_done_zero((n - 1) as nat);
    }
}

proof fn lemma_step_keeps_inv(c: Counting, t: int)
    requires
        c.inv(),
    ensures
        c.step(t).inv(),
{
    if 0 <= t < c.workers.len() {
        let w = c.workers[t];
        let d = c.step(t);
        match w.pc {
            Pc::Idle => {
                if w.done < c.rounds {
                    lemma_total_done_update(c.workers, t, d.workers[t]);
                    if c.word == UNLOCKED {
                        assert forall|i: int| 0 <= i < d.workers.len() && holds(#[trigger] d.workers[i]) implies i == t by {
                            if i != t {
                                assert(d.workers[i] == c.workers[i]);
                            }
                        }
                        assert(!holds(c.workers[t]));
                    } else {
                        assert(exists|i: int| 0 <= i < c.workers.len() && holds(#[trigger] c.workers[i]));
                        let h = choose|i: int| 0 <= i < c.workers.len() && holds(#[trigger] c.workers[i]);
                        assert(d.workers[h] == c.workers[h]);
                    }
                }
            },
            Pc::Waiting => {
                lemma_total_done_update(c.workers, t, d.workers[t]);
                if c.word == UNLOCKED {
                    assert forall|i: int| 0 <= i < d.workers.len() && holds(#[trigger] d.workers[i]) implies i == t by {
                        if i != t {
                            assert(d.workers[i] == c.workers[i]);
                        }
                    }
                } else {
                    let h = choose|i: int| 0 <= i < c.workers.len() && holds(#[trigger] c.workers[i]);
                    assert(d.workers[h] == c.workers[h]);
                }
            },
            Pc::Holding => {
                lemma_total_done_update(c.workers, t, d.workers[t]);
                assert(holds(d.workers[t]));
                assert forall|i: int| 0 <= i < d.workers.len() && (#[trigger] d.workers[i]).pc is Read implies d.workers[i].pc->Read_0 == d.counter by {
                    if i != t {
                        assert(d.workers[i] == c.workers[i]);
                        assert(holds(c.workers[i]));
                    }
                }
            },
            Pc::Read(v) => {
                lemma_total_done_update(c.workers, t, d.workers[t]);
                assert forall|i: int| 0 <= i < d.workers.len() implies !holds(#[trigger] d.workers[i]) by {
                    if i != t {
                        assert(d.workers[i] == c.workers[i]);
                        assert(holds(c.workers[t]));
                    }
                }
            },
        }
    }
}

proof fn lemma_run_keeps_inv(c: Counting, schedule: Seq<int>)
    requires
        c.inv(),
    ensures
        c.run(schedule).inv(),
        c.run(schedule).rounds == c.rounds,
        c.run(schedule).workers.len() == c.workers.len(),
    decreases schedule.len(),
{
    if schedule.len() > 0 {
        lemma_step_keeps_inv(c, schedule[0]);
        lemma_run_keeps_inv(c.step(schedule[0]), schedule.drop_first());
    }
}

/// However the steps of `n` threads interleave, no increment is lost: at
/// most one thread holds the lock, the counter is the number of rounds
/// finished, and once every thread has finished its `rounds` rounds the
/// counter is `n * rounds`.
pub proof fn lemma_no_lost_updates(n: nat, rounds: nat, schedule: Seq<int>)
    ensures
        Counting::initial(n, rounds).run(schedule).inv(),
        Counting::initial(n, rounds).run(schedule).counter == total_done(Counting::initial(n, rounds).run(schedule).workers),
        (forall|i: int| 0 <= i < n ==> (#[trigger] Counting::initial(n, rounds).run(schedule).workers[i]).done == rounds)
            ==> Counting::initial(n, rounds).run(schedule).counter == n * rounds,
{
    let c0 = Counting::initial(n, rounds);
    lemma_total_done_zero(n);
    assert(c0.inv());
    lemma_run_keeps_inv(c0, schedule);
    let c = c0.run(schedule);
    if forall|i: int| 0 <= i < n ==> (#[trigger] c.workers[i]).done == rounds {
        lemma_total_done_all(c.workers, rounds);
    }
}

} // verus!
