use ownership_kit::unique_cell::UniqueCell;

#[test]
fn into_inner_returns_stored_value() {
    let cell = UniqueCell::new(String::from("my stuff"));
    assert_eq!(cell.into_inner(), String::from("my stuff"));
}

#[test]
fn get_and_get_mut() {
    let mut cell = UniqueCell::new(5);
    assert_eq!(*cell.get(), 5);
    *cell.get_mut() += 1;
    assert_eq!(*cell.get(), 6);
    assert_eq!(cell.into_inner(), 6);
}

#[test]
fn moved_cell_keeps_value() {
    let cell = UniqueCell::new(vec![1, 2, 3]);
    let moved = cell;
    assert_eq!(moved.into_inner(), vec![1, 2, 3]);
}
