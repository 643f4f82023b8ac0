use sync_primitives::spin_lock::{flag_taken, SpinLock};

#[test]
fn spin_lock_collects_pushes() {
    let mut spin: SpinLock<Vec<i32>> = SpinLock::new(Vec::new());
    let g = spin.lock().unwrap();
    assert!(spin.lock().is_none());
    let mut v = spin.get(&g).clone();
    v.push(1);
    spin.set(&g, v);
    spin.unlock(g);

    let g = spin.lock().unwrap();
    let mut v = spin.get(&g).clone();
    v.push(2);
    v.push(3);
    spin.set(&g, v);
    spin.unlock(g);

    let g = spin.lock().unwrap();
    assert_eq!(spin.get(&g).as_slice(), [1, 2, 3]);
}

#[test]
fn spin_lock_counts_exactly() {
    let mut spin = SpinLock::new(0u32);
    for _ in 0..1000 {
        let g = spin.lock().unwrap();
        let v = *spin.get(&g);
        spin.set(&g, v + 1);
        spin.unlock(g);
    }
    let g = spin.lock().unwrap();
    assert_eq!(*spin.get(&g), 1000);
}

#[test]
fn flag_decision() {
    assert!(flag_taken(false));
    assert!(!flag_taken(true));
}
