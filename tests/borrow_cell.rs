use ownership_kit::borrow_cell::{BorrowConflict, BorrowState, DynamicBorrowCell};

#[test]
fn two_shared_borrows_give_shared_two() {
    let mut cell = DynamicBorrowCell::new(5);
    let a = cell.try_borrow();
    assert!(a.is_ok());
    let b = cell.try_borrow();
    assert!(b.is_ok());
    assert_eq!(cell.state(), BorrowState::Shared(2));
    let b = b.ok().unwrap();
    assert_eq!(*cell.read(&b), 5);
}

#[test]
fn shared_then_exclusive_conflicts() {
    let mut cell = DynamicBorrowCell::new(5);
    let _a = cell.borrow();
    let r = cell.try_borrow_mut();
    assert!(matches!(r, Err(BorrowConflict)));
    assert_eq!(cell.state(), BorrowState::Shared(1));
}

#[test]
fn exclusive_then_any_borrow_conflicts() {
    let mut cell = DynamicBorrowCell::new(5);
    let _g = cell.borrow_mut();
    assert!(matches!(cell.try_borrow(), Err(BorrowConflict)));
    assert!(matches!(cell.try_borrow_mut(), Err(BorrowConflict)));
    assert_eq!(cell.state(), BorrowState::Exclusive);
}

#[test]
fn release_of_sole_guard_allows_exclusive() {
    let mut cell = DynamicBorrowCell::new(5);
    let a = cell.borrow();
    cell.release(a);
    assert_eq!(cell.state(), BorrowState::Unborrowed);
    let g = cell.try_borrow_mut();
    assert!(g.is_ok());
    assert_eq!(cell.state(), BorrowState::Exclusive);
}

#[test]
fn shared_release_counts_down() {
    let mut cell = DynamicBorrowCell::new(1);
    let a = cell.borrow();
    let b = cell.borrow();
    let c = cell.borrow();
    assert_eq!(cell.state(), BorrowState::Shared(3));
    cell.release(a);
    assert_eq!(cell.state(), BorrowState::Shared(2));
    cell.release(b);
    cell.release(c);
    assert_eq!(cell.state(), BorrowState::Unborrowed);
}

#[test]
fn exclusive_write_then_release() {
    let mut cell = DynamicBorrowCell::new(5);
    let g = cell.borrow_mut();
    let before = cell.replace(&g, 15);
    assert_eq!(before, 5);
    *cell.get_mut(&g) += 10;
    cell.release_mut(g);
    assert_eq!(cell.state(), BorrowState::Unborrowed);
    let r = cell.borrow();
    assert_eq!(*cell.read(&r), 25);
    cell.release(r);
    assert_eq!(cell.into_inner(), 25);
}
