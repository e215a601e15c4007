use ownership_kit::shared::{SharedHeap, WeakHandle};
use std::cell::Cell;
use std::rc::Rc;

struct Counted {
    drops: Rc<Cell<usize>>,
    value: i32,
}

impl Drop for Counted {
    fn drop(&mut self) {
        self.drops.set(self.drops.get() + 1);
    }
}

#[test]
fn strong_count_follows_clones_and_drops() {
    let drops = Rc::new(Cell::new(0));
    let mut heap = SharedHeap::new();
    let a = heap.allocate(Counted { drops: drops.clone(), value: 5 });
    assert_eq!(heap.strong_count(&a), 1);
    let b = heap.clone_strong(&a);
    assert_eq!(heap.strong_count(&a), 2);
    {
        let c = heap.clone_strong(&a);
        assert_eq!(heap.strong_count(&a), 3);
        assert!(heap.drop_strong(c).is_none());
    }
    assert_eq!(heap.strong_count(&a), 2);
    assert_eq!(heap.get(&b).value, 5);
    assert!(heap.drop_strong(b).is_none());
    assert_eq!(heap.strong_count(&a), 1);
    assert_eq!(drops.get(), 0);
    let index = a.index();
    let dead = heap.drop_strong(a);
    assert!(dead.is_some());
    drop(dead);
    assert_eq!(drops.get(), 1);
    assert!(!heap.is_allocated(index));
}

#[test]
fn block_reclaimed_only_when_both_counts_zero() {
    let mut heap = SharedHeap::new();
    let a = heap.allocate(7);
    let index = a.index();
    let w1 = heap.downgrade(&a);
    let w2 = heap.clone_weak(&w1);
    assert_eq!(heap.weak_count(&a), 2);
    assert_eq!(heap.drop_strong(a), Some(7));
    assert!(heap.is_allocated(index));
    heap.drop_weak(w1);
    assert!(heap.is_allocated(index));
    heap.drop_weak(w2);
    assert!(!heap.is_allocated(index));
}

#[test]
fn weak_drops_before_strong_keep_block_until_strong_goes() {
    let mut heap = SharedHeap::new();
    let a = heap.allocate(1);
    let index = a.index();
    let w = heap.downgrade(&a);
    heap.drop_weak(w);
    assert_eq!(heap.weak_count(&a), 0);
    assert!(heap.is_allocated(index));
    assert_eq!(heap.drop_strong(a), Some(1));
    assert!(!heap.is_allocated(index));
}

#[test]
fn upgrade_fails_after_last_strong_drop() {
    let mut heap = SharedHeap::new();
    let a = heap.allocate(String::from("payload"));
    let w = heap.downgrade(&a);
    let b = heap.clone_strong(&a);
    let up = heap.upgrade(&w);
    assert!(up.is_some());
    let up = up.unwrap();
    assert_eq!(heap.strong_count(&a), 3);
    assert!(heap.drop_strong(up).is_none());
    assert!(heap.drop_strong(b).is_none());
    assert_eq!(heap.drop_strong(a), Some(String::from("payload")));
    assert!(heap.upgrade(&w).is_none());
    heap.drop_weak(w);
}

#[test]
fn empty_weak_handle_never_upgrades() {
    let mut heap: SharedHeap<i32> = SharedHeap::new();
    let w = WeakHandle::new();
    assert!(heap.upgrade(&w).is_none());
    let w2 = heap.clone_weak(&w);
    assert!(heap.upgrade(&w2).is_none());
    heap.drop_weak(w);
    heap.drop_weak(w2);
}

#[test]
fn replace_payload_keeps_counts() {
    let mut heap = SharedHeap::new();
    let a = heap.allocate(1);
    let b = heap.clone_strong(&a);
    assert_eq!(heap.replace_payload(&a, 2), 1);
    assert_eq!(*heap.get(&b), 2);
    assert_eq!(heap.strong_count(&b), 2);
    assert!(heap.is_live(&b));
}
