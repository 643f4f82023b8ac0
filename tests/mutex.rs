use sync_primitives::mutex::{
    acquired_by_swap, keep_spinning, must_wake, Mutex, MutexGuard, CONTENDED, LOCKED, SPIN_LIMIT,
    UNLOCKED,
};

#[test]
fn lock_free_then_held() {
    let mut m = Mutex::new(7u32);
    let g = m.lock().unwrap();
    assert_eq!(*m.get(&g), 7);
    assert!(m.lock().is_none());
    assert!(m.relock().is_none());
    m.set(&g, 8);
    assert!(m.unlock(g));
    let g = m.relock().unwrap();
    assert_eq!(*m.get(&g), 8);
    assert!(m.unlock(g));
    let g = m.lock().unwrap();
    assert!(!m.unlock(g));
}

#[test]
fn release_of_contended_lock_wakes() {
    let mut m = Mutex::new(());
    let g = m.lock().unwrap();
    assert!(!m.unlock(g));
    let g = m.lock().unwrap();
    assert!(m.lock().is_none());
    assert!(m.lock().is_none());
    assert!(m.unlock(g));
}

#[test]
fn lock_word_decisions() {
    assert!(keep_spinning(LOCKED, 0));
    assert!(keep_spinning(LOCKED, SPIN_LIMIT - 1));
    assert!(!keep_spinning(LOCKED, SPIN_LIMIT));
    assert!(!keep_spinning(UNLOCKED, 0));
    assert!(!keep_spinning(CONTENDED, 0));
    assert!(acquired_by_swap(UNLOCKED));
    assert!(!acquired_by_swap(LOCKED));
    assert!(!acquired_by_swap(CONTENDED));
    assert!(must_wake(CONTENDED));
    assert!(!must_wake(LOCKED));
}

const WORKERS: usize = 4;
const ROUNDS: u64 = 5_000_000;

enum Phase {
    Idle,
    Waiting,
    Holding(MutexGuard),
}

/// Four workers, each adding one five million times, interleaved so that
/// every other attempt finds the lock held.
#[test]
fn four_workers_count_exactly() {
    let mut m = Mutex::new(0u64);
    let mut phases: Vec<Phase> = (0..WORKERS).map(|_| Phase::Idle).collect();
    let mut done = [0u64; WORKERS];
    let mut finished: usize = 0;
    let mut wakes: u64 = 0;
    while finished < WORKERS {
        finished = 0;
        for w in 0..WORKERS {
            if done[w] == ROUNDS {
                finished += 1;
                continue;
            }
            let phase = std::mem::replace(&mut phases[w], Phase::Idle);
            phases[w] = match phase {
                Phase::Idle => match m.lock() {
                    Some(g) => Phase::Holding(g),
                    None => Phase::Waiting,
                },
                Phase::Waiting => match m.relock() {
                    Some(g) => Phase::Holding(g),
                    None => Phase::Waiting,
                },
                Phase::Holding(g) => {
                    let v = *m.get(&g);
                    m.set(&g, v + 1);
                    if m.unlock(g) {
                        wakes += 1;
                    }
                    done[w] += 1;
                    Phase::Idle
                }
            };
        }
    }
    let g = m.lock().unwrap();
    assert_eq!(*m.get(&g), 20_000_000);
    assert!(wakes > 0);
}
