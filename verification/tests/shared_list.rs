use ownership_models::shared_list::{Arena, SharedList, SharedValue};

/// Sets the scalar behind `handle` to `value`, under its write ticket.
fn set(arena: &mut Arena, handle: &SharedValue, value: i32) {
    let cell = arena.cell_mut(handle);
    let ticket = cell.borrow_mutable();
    *cell.write(&ticket) = value;
    cell.release_mutable(ticket);
}

/// Two lists `[first, shared]` and `[second, shared]` over one common tail, and the
/// handle to the shared scalar.
fn two_branches(
    arena: &mut Arena,
    first: i32,
    second: i32,
    shared: i32,
) -> (SharedValue, SharedList, SharedList, SharedList) {
    let start_value = arena.new_value(shared);
    let in_list = arena.clone_value(&start_value);
    let end = arena.nil();
    let common = arena.cons(in_list, end);
    let head_1 = arena.new_value(first);
    let tail_1 = arena.clone_list(&common);
    let branch_1 = arena.cons(head_1, tail_1);
    let head_2 = arena.new_value(second);
    let tail_2 = arena.clone_list(&common);
    let branch_2 = arena.cons(head_2, tail_2);
    (start_value, common, branch_1, branch_2)
}

#[test]
fn shared_change_is_seen_through_both_heads() {
    let mut arena = Arena::new();
    let (start_value, common, branch_1, branch_2) = two_branches(&mut arena, 3, 4, 5);
    assert_eq!(arena.to_vec(&branch_1), vec![3, 5]);
    assert_eq!(arena.to_vec(&branch_2), vec![4, 5]);
    assert_eq!(arena.to_vec(&common), vec![5]);
    set(&mut arena, &start_value, 10);
    assert_eq!(arena.to_vec(&branch_1), vec![3, 10]);
    assert_eq!(arena.to_vec(&branch_2), vec![4, 10]);
    assert_eq!(arena.to_vec(&common), vec![10]);
}

#[test]
fn empty_list_is_shown_as_nil() {
    let mut arena = Arena::new();
    let end = arena.nil();
    assert_eq!(arena.render(&end), "Nil");
    assert_eq!(arena.to_vec(&end), Vec::<i32>::new());
}

#[test]
fn negative_and_large_values_are_shown() {
    let mut arena = Arena::new();
    let end = arena.nil();
    let low = arena.new_value(i32::MIN);
    let tail = arena.cons(low, end);
    let high = arena.new_value(i32::MAX);
    let list = arena.cons(high, tail);
    assert_eq!(
        arena.render(&list),
        "Cons(RefCell { value: 2147483647 }, Cons(RefCell { value: -2147483648 }, Nil))"
    );
}

#[test]
fn scalar_under_write_ticket_is_shown_as_borrowed() {
    let mut arena = Arena::new();
    let (start_value, _common, branch_1, _branch_2) = two_branches(&mut arena, 3, 4, 5);
    let ticket = arena.cell_mut(&start_value).borrow_mutable();
    assert_eq!(
        arena.render(&branch_1),
        "Cons(RefCell { value: 3 }, Cons(RefCell { value: <borrowed> }, Nil))"
    );
    arena.cell_mut(&start_value).release_mutable(ticket);
    assert_eq!(
        arena.render(&branch_1),
        "Cons(RefCell { value: 3 }, Cons(RefCell { value: 5 }, Nil))"
    );
}

#[test]
fn scalar_under_read_ticket_is_shown() {
    let mut arena = Arena::new();
    let value = arena.new_value(8);
    let in_list = arena.clone_value(&value);
    let end = arena.nil();
    let list = arena.cons(in_list, end);
    let ticket = arena.cell_mut(&value).borrow_immutable();
    assert_eq!(arena.cell(&value).reader_count(), 1);
    assert_eq!(arena.render(&list), "Cons(RefCell { value: 8 }, Nil)");
    assert_eq!(arena.to_vec(&list), vec![8]);
    arena.cell_mut(&value).release_immutable(ticket);
}

#[test]
fn owners_are_counted() {
    let mut arena = Arena::new();
    let (start_value, common, branch_1, branch_2) = two_branches(&mut arena, 3, 4, 5);
    assert_eq!(arena.value_owners(&start_value), 2);
    assert_eq!(arena.list_owners(&common), 3);
    assert_eq!(arena.list_owners(&branch_1), 1);
    assert_eq!(arena.list_owners(&branch_2), 1);
    let twin = arena.clone_list(&branch_1);
    assert_eq!(arena.list_owners(&branch_1), 2);
    arena.release_list(twin);
    assert_eq!(arena.list_owners(&branch_1), 1);
}

#[test]
fn release_runs_down_the_list_as_far_as_it_is_owned_alone() {
    let mut arena = Arena::new();
    let (start_value, common, branch_1, branch_2) = two_branches(&mut arena, 3, 4, 5);
    arena.release_list(branch_1);
    assert_eq!(arena.list_owners(&common), 2);
    assert_eq!(arena.value_owners(&start_value), 2);
    assert_eq!(arena.to_vec(&branch_2), vec![4, 5]);
    assert_eq!(arena.to_vec(&common), vec![5]);

    let watch = arena.clone_list(&common);
    arena.release_list(common);
    assert_eq!(arena.list_owners(&watch), 2);
    arena.release_list(branch_2);
    assert_eq!(arena.list_owners(&watch), 1);
    assert_eq!(arena.value_owners(&start_value), 2);
    assert_eq!(arena.to_vec(&watch), vec![5]);

    set(&mut arena, &start_value, 6);
    assert_eq!(arena.render(&watch), "Cons(RefCell { value: 6 }, Nil)");
    let still = arena.clone_value(&start_value);
    arena.release_list(watch);
    assert_eq!(arena.value_owners(&start_value), 2);
    arena.release_value(still);
    assert_eq!(arena.value_owners(&start_value), 1);
    assert_eq!(arena.cell(&start_value).try_read(), Some(&6));
}

#[test]
fn last_owner_evicts_the_scalar() {
    let mut arena = Arena::new();
    let value = arena.new_value(1);
    let twin = arena.clone_value(&value);
    let watch = arena.clone_value(&value);
    assert_eq!(arena.value_owners(&watch), 3);
    arena.release_value(twin);
    assert_eq!(arena.value_owners(&watch), 2);
    arena.release_value(value);
    assert_eq!(arena.value_owners(&watch), 1);
}

#[test]
fn one_scalar_twice_in_one_list() {
    let mut arena = Arena::new();
    let value = arena.new_value(2);
    let first = arena.clone_value(&value);
    let second = arena.clone_value(&value);
    let end = arena.nil();
    let tail = arena.cons(second, end);
    let list = arena.cons(first, tail);
    assert_eq!(arena.to_vec(&list), vec![2, 2]);
    set(&mut arena, &value, 9);
    assert_eq!(arena.to_vec(&list), vec![9, 9]);
    assert_eq!(arena.value_owners(&value), 3);
    arena.release_list(list);
    assert_eq!(arena.value_owners(&value), 1);
}
