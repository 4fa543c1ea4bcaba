use ownership_models::access_cell::AccessCell;
use ownership_models::limit_tracker::{LimitTracker, MockMessenger};
use ownership_models::shared_list::Arena;

/// The number of messages that a mock messenger has kept, read under a read ticket.
fn sent_count(messenger: &mut MockMessenger) -> usize {
    let ticket = messenger.sent_messages.borrow_immutable();
    let count = messenger.sent_messages.read(&ticket).len();
    messenger.sent_messages.release_immutable(ticket);
    count
}

/// Simple checks for borrowing through an access cell.
#[test]
fn it_allows_modification_of_immutable_ref() {
    let mut message_cell = AccessCell::new(String::from("Hello"));
    {
        let ticket = message_cell.borrow_immutable();
        assert_eq!(*message_cell.read(&ticket), "Hello");
        message_cell.release_immutable(ticket);
    }

    {
        let ticket = message_cell.borrow_mutable();
        let inner_string = message_cell.write(&ticket);
        (*inner_string).push_str(" world!");
        message_cell.release_mutable(ticket);
    }

    {
        let ticket = message_cell.borrow_immutable();
        assert_eq!(*message_cell.read(&ticket), "Hello world!");
        message_cell.release_immutable(ticket);
    }
}

/// Negative test: asking for read access while the write ticket is outstanding is fatal.
#[test]
#[should_panic]
fn it_panics_on_borrowing_a_mutable_borrow() {
    let mut message_cell = AccessCell::new(String::from("Hello"));
    {
        let ticket = message_cell.borrow_immutable();
        assert_eq!(*message_cell.read(&ticket), "Hello");
        message_cell.release_immutable(ticket);
    }

    let inner_string_mut = message_cell.borrow_mutable();
    message_cell.write(&inner_string_mut).push_str(" world!");

    let inner_string = match message_cell.try_borrow_immutable() {
        Some(ticket) => ticket,
        None => panic!("already mutably borrowed"),
    };
    assert_eq!(*message_cell.read(&inner_string), "Hello world!");
}

#[test]
fn it_mutates_internal_field_through_immutable_ref() {
    let mock_messenger = MockMessenger::new();
    let mut limit_tracker = LimitTracker::new(mock_messenger, 100);

    // Expect an initial empty message list.
    assert_eq!(sent_count(limit_tracker.messenger_mut()), 0);

    // Setting the "value" to 80 out of 100 should result in emitting a message:
    limit_tracker.set_value(80);
    assert_eq!(sent_count(limit_tracker.messenger_mut()), 1);
}

#[test]
fn it_makes_multiple_refs() {
    let mut arena = Arena::new();

    // The access cell is only for mutability.
    let start_value = arena.new_value(5);

    // A list (with only one element) that will be the common tail of two different lists:
    let shared_value = arena.clone_value(&start_value);
    let end = arena.nil();
    let common_list = arena.cons(shared_value, end);

    // A list that "contains" `common_list` by reference (as its "tail") and also owns a
    // new element ("head").
    let head_1 = arena.new_value(3);
    let tail_1 = arena.clone_list(&common_list);
    let branch_1 = arena.cons(head_1, tail_1);

    // Another list that "contains" `common_list` by reference and also owns a new element.
    let head_2 = arena.new_value(4);
    let tail_2 = arena.clone_list(&common_list);
    let branch_2 = arena.cons(head_2, tail_2);

    // Check the lists are `[3, 5]` and `[4, 5]`; where the element `5` comes from the common list:
    assert_eq!(arena.render(&branch_1), "Cons(RefCell { value: 3 }, Cons(RefCell { value: 5 }, Nil))");
    assert_eq!(arena.render(&branch_2), "Cons(RefCell { value: 4 }, Cons(RefCell { value: 5 }, Nil))");

    // Change the common list suffix by means of a mutable borrow:
    {
        let cell = arena.cell_mut(&start_value);
        let ticket = cell.borrow_mutable();
        *cell.write(&ticket) = 10;
        cell.release_mutable(ticket);
    }

    // Ensure the "derived" lists reflect the change in their common element: `[3, 10]` and `[4, 10]`:
    assert_eq!(arena.render(&branch_1), "Cons(RefCell { value: 3 }, Cons(RefCell { value: 10 }, Nil))");
    assert_eq!(arena.render(&branch_2), "Cons(RefCell { value: 4 }, Cons(RefCell { value: 10 }, Nil))");
}
