use std::cell::Cell;
use std::rc::Rc;
use sync_primitives::arc::{
    clone_overflows, downgrade_step, released_last, upgrade_step, Arc, Step, MAX_REFS, PROBING,
};

struct DetectDrop(Rc<Cell<usize>>);

impl Drop for DetectDrop {
    fn drop(&mut self) {
        self.0.set(self.0.get() + 1);
    }
}

#[test]
fn test() {
    let drops = Rc::new(Cell::new(0usize));
    let (x, mut data) = Arc::new(("hello", DetectDrop(drops.clone())));
    let y = Arc::downgrade(&x, &mut data).unwrap();
    let z = Arc::downgrade(&x, &mut data).unwrap();

    // What the spawned thread does: upgrade, read, then let both handles go.
    let x2 = y.upgrade(&mut data).unwrap();
    assert_eq!(x2.get(&data).0, "hello");
    assert!(x2.release(&mut data).is_none());
    assert!(!y.release(&mut data));

    assert_eq!(x.get(&data).0, "hello");
    assert_eq!(drops.get(), 0);
    let again = z.upgrade(&mut data);
    assert!(again.is_some());
    assert!(again.unwrap().release(&mut data).is_none());

    drop(x.release(&mut data));

    assert_eq!(drops.get(), 1);
    assert!(z.upgrade(&mut data).is_none());
}

#[test]
fn payload_destroyed_once_after_last_owner() {
    let drops = Rc::new(Cell::new(0usize));
    let (a, mut data) = Arc::new(DetectDrop(drops.clone()));
    let b = a.clone(&mut data);
    let c = b.clone(&mut data);
    assert!(a.release(&mut data).is_none());
    assert!(c.release(&mut data).is_none());
    assert_eq!(drops.get(), 0);
    let last = b.release(&mut data);
    assert!(last.is_some());
    drop(last);
    assert_eq!(drops.get(), 1);
    assert!(!data.is_allocated());
}

#[test]
fn upgrade_absent_after_last_owner_with_weak_left() {
    let (a, mut data) = Arc::new(5u32);
    let w1 = Arc::downgrade(&a, &mut data).unwrap();
    let w2 = w1.clone(&mut data);
    let up = w1.upgrade(&mut data).unwrap();
    assert_eq!(*up.get(&data), 5);
    assert_eq!(up.release(&mut data), None);
    assert_eq!(a.release(&mut data), Some(5));
    assert!(w1.upgrade(&mut data).is_none());
    assert!(w2.upgrade(&mut data).is_none());
    assert!(!w1.release(&mut data));
    assert!(data.is_allocated());
    assert!(w2.release(&mut data));
    assert!(!data.is_allocated());
}

#[test]
fn get_mut_only_when_unique() {
    let (a, mut data) = Arc::new(10u64);
    *Arc::get_mut(&a, &mut data).unwrap() += 1;
    assert_eq!(*a.get(&data), 11);

    let w = Arc::downgrade(&a, &mut data).unwrap();
    assert!(Arc::get_mut(&a, &mut data).is_none());
    assert!(!w.release(&mut data));
    assert!(Arc::get_mut(&a, &mut data).is_some());

    let b = a.clone(&mut data);
    assert!(Arc::get_mut(&a, &mut data).is_none());
    assert!(b.release(&mut data).is_none());
    assert!(Arc::get_mut(&a, &mut data).is_some());
    assert_eq!(*a.get(&data), 11);
}

#[test]
fn downgrade_waits_during_probe() {
    let (a, mut data) = Arc::new(1u8);
    let b = a.clone(&mut data);
    assert!(a.probe_begin(&mut data));
    assert!(Arc::downgrade(&b, &mut data).is_none());
    assert!(Arc::downgrade(&b, &mut data).is_none());
    assert!(!b.probe_begin(&mut data));
    assert!(!a.probe_end(&mut data));
    let w = Arc::downgrade(&b, &mut data);
    assert!(w.is_some());
    assert!(!a.probe_begin(&mut data));
}

#[test]
fn probe_reports_unique_owner() {
    let (a, mut data) = Arc::new(1u8);
    assert!(a.probe_begin(&mut data));
    assert!(a.probe_end(&mut data));
    assert!(Arc::downgrade(&a, &mut data).is_some());
}

#[test]
fn upgrade_decisions() {
    assert!(matches!(upgrade_step(0), Step::Stop));
    assert!(matches!(upgrade_step(1), Step::Swap(2)));
    assert!(matches!(upgrade_step(41), Step::Swap(42)));
    assert!(matches!(upgrade_step(usize::MAX - 1), Step::Swap(n) if n == usize::MAX));
    assert!(matches!(upgrade_step(usize::MAX), Step::Abort));
}

#[test]
fn downgrade_decisions() {
    assert!(matches!(downgrade_step(PROBING), Step::Wait));
    assert!(matches!(downgrade_step(usize::MAX - 1), Step::Abort));
    assert!(matches!(downgrade_step(1), Step::Swap(2)));
    assert!(matches!(downgrade_step(0), Step::Swap(1)));
    assert!(matches!(downgrade_step(usize::MAX - 2), Step::Swap(n) if n == usize::MAX - 1));
}

#[test]
fn overflow_and_release_decisions() {
    assert_eq!(MAX_REFS, usize::MAX / 2);
    assert!(!clone_overflows(0));
    assert!(!clone_overflows(MAX_REFS));
    assert!(clone_overflows(MAX_REFS + 1));
    assert!(clone_overflows(usize::MAX));
    assert!(released_last(1));
    assert!(!released_last(2));
    assert!(!released_last(0));
}
