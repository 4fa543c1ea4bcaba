//! Small verified models of ownership, borrowing and shared mutation.
//!
//! - [`my_box`]: a one-field owning wrapper with read and write dereference.
//! - [`access_cell`]: a cell that grants read and write access at run time.
//! - [`limit_tracker`]: a quota tracker that reports through a messenger.
//! - [`shared_list`]: lists that share scalars and tails, kept in an arena, with their
//!   model in [`list_model`] and what holds of it in [`list_laws`].
//! - [`text`]: decimal notation.

pub mod access_cell;
pub mod limit_tracker;
pub mod list_laws;
pub mod list_model;
pub mod my_box;
pub mod shared_list;
pub mod text;

use crate::access_cell::AccessCell;
use crate::my_box::MyBox;
use vstd::prelude::*;
use vstd::string::StringExecFns;

verus! {

/// Moves a string into an owning wrapper. From then on only the wrapper gives access to
/// it.
///
/// The following example fails to compile because `text` is moved into `boxed`, and
/// then we can no longer access it directly.
///
/// ```compile_fail,E0382
/// use ownership_models::my_box::MyBox;
///
/// fn attempt_to_use_moved_value() {
///     let text = String::from("hi");
///     let boxed = MyBox::new(text);
///     text.push('!');
/// }
/// ```
pub fn __doc_test_compile_fail() {
    let text = String::from_str("hi");
    let ghost moved = text@;
    let boxed = MyBox::new(text);
    assert(boxed@@ == moved);
    let back = boxed.into_inner();
    assert(back@ == moved);
}

/// Asks a cell for read access while its write ticket is outstanding. The request is
/// refused, and the cell stays as it was.
///
/// The following example panics with `already mutably borrowed`: the write ticket of
/// `message_cell` is outstanding when read access is asked for.
///
/// ```should_panic
/// use ownership_models::access_cell::AccessCell;
///
/// let mut message_cell = AccessCell::new(String::from("Hello"));
///
/// let write_ticket = message_cell.borrow_mutable();
/// message_cell.write(&write_ticket).push_str(" world!");
///
/// let read_ticket = message_cell.try_borrow_immutable().expect("already mutably borrowed");
/// assert_eq!(*message_cell.read(&read_ticket), "Hello world!");
/// ```
pub fn __doc_test_should_panic() {
    let mut message_cell = AccessCell::new(String::from_str("Hello"));
    let write_ticket = message_cell.borrow_mutable();
    message_cell.write(&write_ticket).append(" world!");
    let ghost locked = message_cell@;
    let read_ticket = message_cell.try_borrow_immutable();
    assert(read_ticket.is_none());
    assert(message_cell@ == locked);
    assert(message_cell@.value@ == "Hello"@ + " world!"@);
    message_cell.release_mutable(write_ticket);
    assert(message_cell@.is_free());
}

} // verus!
