use ownership_models::access_cell::AccessCell;

#[test]
fn new_cell_is_free() {
    let cell = AccessCell::new(7);
    assert_eq!(cell.reader_count(), 0);
    assert!(!cell.is_write_locked());
    assert_eq!(cell.into_inner(), 7);
}

#[test]
fn read_tickets_are_shared() {
    let mut cell = AccessCell::new(String::from("shared"));
    let first = cell.borrow_immutable();
    let second = cell.try_borrow_immutable().unwrap();
    let third = cell.borrow_immutable();
    assert_eq!(cell.reader_count(), 3);
    assert_eq!(*cell.read(&first), "shared");
    assert_eq!(*cell.read(&third), "shared");
    cell.release_immutable(second);
    assert_eq!(cell.reader_count(), 2);
    cell.release_immutable(first);
    cell.release_immutable(third);
    assert_eq!(cell.reader_count(), 0);
}

#[test]
fn write_ticket_is_refused_while_reading() {
    let mut cell = AccessCell::new(1);
    let reader = cell.borrow_immutable();
    assert!(cell.try_borrow_mutable().is_none());
    assert_eq!(cell.reader_count(), 1);
    assert!(!cell.is_write_locked());
    cell.release_immutable(reader);
    let writer = cell.try_borrow_mutable();
    assert!(writer.is_some());
    assert!(cell.is_write_locked());
}

#[test]
fn write_ticket_is_exclusive() {
    let mut cell = AccessCell::new(1);
    let writer = cell.borrow_mutable();
    assert!(cell.is_write_locked());
    assert!(cell.try_borrow_mutable().is_none());
    assert!(cell.try_borrow_immutable().is_none());
    assert!(cell.is_write_locked());
    assert_eq!(cell.reader_count(), 0);
    *cell.write(&writer) = 2;
    cell.release_mutable(writer);
    assert!(!cell.is_write_locked());
    let reader = cell.borrow_immutable();
    assert_eq!(*cell.read(&reader), 2);
}

#[test]
fn write_goes_through_to_the_value() {
    let mut cell = AccessCell::new(vec![1, 2]);
    let writer = cell.borrow_mutable();
    cell.write(&writer).push(3);
    cell.write(&writer).push(4);
    cell.release_mutable(writer);
    assert_eq!(cell.into_inner(), vec![1, 2, 3, 4]);
}

#[test]
fn glance_is_refused_while_writing() {
    let mut cell = AccessCell::new(5);
    assert_eq!(cell.try_read(), Some(&5));
    let reader = cell.borrow_immutable();
    assert_eq!(cell.try_read(), Some(&5));
    cell.release_immutable(reader);
    let writer = cell.borrow_mutable();
    assert_eq!(cell.try_read(), None);
    cell.release_mutable(writer);
    assert_eq!(cell.try_read(), Some(&5));
}
