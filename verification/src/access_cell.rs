//! A cell whose read and write access is granted at run time, one request at a time.
//!
//! The cell owns a value and remembers which access grants are outstanding. A grant is
//! handed out as a ticket and given back by releasing the ticket. Read grants may be
//! shared; a write grant is exclusive. The cell is meant for one sequential flow of
//! control and is not thread-safe.

use vstd::prelude::*;

verus! {

/// Marker of a ticket that grants read access.
pub struct ReadOnly;

/// Marker of a ticket that grants write access.
pub struct ReadWrite;

/// One granted access to a cell, of kind `K`. Only a cell can make one.
pub struct AccessTicket<K> {
    kind: K,
}

/// Which grants of a cell are outstanding.
pub enum AccessState {
    /// No ticket is outstanding.
    Free,
    /// That many read tickets are outstanding.
    Reading(usize),
    /// The one write ticket is outstanding.
    Writing,
}

/// What a cell is, mathematically: its value and the number of outstanding tickets of
/// each kind.
pub ghost struct CellModel<T> {
    pub value: T,
    pub readers: nat,
    pub writers: nat,
}

impl<T> CellModel<T> {
    /// No ticket of either kind is outstanding.
    pub open spec fn is_free(self) -> bool {
        self.readers == 0 && self.writers == 0
    }

    /// A further read ticket can be granted.
    pub open spec fn admits_reader(self) -> bool {
        self.writers == 0 && self.readers < usize::MAX
    }

    /// The same cell with one more read ticket outstanding.
    pub open spec fn with_reader(self) -> CellModel<T> {
        CellModel { readers: self.readers + 1, ..self }
    }

    /// The same cell with one read ticket fewer outstanding.
    pub open spec fn without_reader(self) -> CellModel<T>
        recommends
            self.readers > 0,
    {
        CellModel { readers: (self.readers - 1) as nat, ..self }
    }

    /// The same cell with the write ticket outstanding.
    pub open spec fn with_writer(self) -> CellModel<T> {
        CellModel { writers: 1, ..self }
    }

    /// The same cell with no write ticket outstanding.
    pub open spec fn without_writer(self) -> CellModel<T> {
        CellModel { writers: 0, ..self }
    }

    /// The same cell holding `value`.
    pub open spec fn with_value(self, value: T) -> CellModel<T> {
        CellModel { value, ..self }
    }
}

/// A value together with the record of its outstanding access grants.
pub struct AccessCell<T> {
    value: T,
    state: AccessState,
}

impl<T> View for AccessCell<T> {
    type V = CellModel<T>;

    closed spec fn view(&self) -> CellModel<T> {
        CellModel {
            value: self.value,
            readers: match self.state {
                AccessState::Reading(n) => n as nat,
                _ => 0,
            },
            writers: match self.state {
                AccessState::Writing => 1,
                _ => 0,
            },
        }
    }
}

impl<T> AccessCell<T> {
    /// A cell that owns `value`, with no ticket outstanding.
    pub fn new(value: T) -> (cell: AccessCell<T>)
        ensures
            cell@ == (CellModel { value, readers: 0, writers: 0 }),
    {
        AccessCell { value, state: AccessState::Free }
    }

    /// Gives the value back and ends the cell.
    pub fn into_inner(self) -> (value: T)
        ensures
            value == self@.value,
    {
        self.value
    }

    /// The number of read tickets that are outstanding.
    pub fn reader_count(&self) -> (n: usize)
        ensures
            n == self@.readers,
    {
        match self.state {
            AccessState::Reading(n) => n,
            _ => 0,
        }
    }

    /// Whether the write ticket is outstanding.
    pub fn is_write_locked(&self) -> (locked: bool)
        ensures
            locked == (self@.writers == 1),
    {
        match self.state {
            AccessState::Writing => true,
            _ => false,
        }
    }

    /// Grants read access, if no write ticket is outstanding and the count of read
    /// tickets can still grow. A refused request leaves the cell as it was.
    pub fn try_borrow_immutable(&mut self) -> (ticket: Option<AccessTicket<ReadOnly>>)
        ensures
            ticket.is_some() == old(self)@.admits_reader(),
            final(self)@ == if old(self)@.admits_reader() {
                old(self)@.with_reader()
            } else {
                old(self)@
            },
    {
        let readers: usize = self.reader_count();
        if self.is_write_locked() || readers == usize::MAX {
            None
        } else {
            self.state = AccessState::Reading(readers + 1);
            Some(AccessTicket { kind: ReadOnly })
        }
    }

    /// Grants write access, if no ticket of either kind is outstanding. A refused
    /// request leaves the cell as it was.
    pub fn try_borrow_mutable(&mut self) -> (ticket: Option<AccessTicket<ReadWrite>>)
        ensures
            ticket.is_some() == old(self)@.is_free(),
            final(self)@ == if old(self)@.is_free() {
                old(self)@.with_writer()
            } else {
                old(self)@
            },
    {
        if self.is_write_locked() || self.reader_count() > 0 {
            None
        } else {
            self.state = AccessState::Writing;
            Some(AccessTicket { kind: ReadWrite })
        }
    }

    /// Grants read access. To ask while the write ticket is outstanding is a usage
    /// error, which the precondition rules out.
    pub fn borrow_immutable(&mut self) -> (ticket: AccessTicket<ReadOnly>)
        requires
            old(self)@.admits_reader(),
        ensures
            final(self)@ == old(self)@.with_reader(),
    {
        let readers: usize = self.reader_count();
        self.state = AccessState::Reading(readers + 1);
        AccessTicket { kind: ReadOnly }
    }

    /// Grants write access. To ask while any ticket is outstanding is a usage error,
    /// which the precondition rules out.
    pub fn borrow_mutable(&mut self) -> (ticket: AccessTicket<ReadWrite>)
        requires
            old(self)@.is_free(),
        ensures
            final(self)@ == old(self)@.with_writer(),
    {
        self.state = AccessState::Writing;
        AccessTicket { kind: ReadWrite }
    }

    /// Takes back a read ticket.
    pub fn release_immutable(&mut self, ticket: AccessTicket<ReadOnly>)
        requires
            old(self)@.readers > 0,
        ensures
            final(self)@ == old(self)@.without_reader(),
    {
        let readers: usize = self.reader_count();
        if readers == 1 {
            self.state = AccessState::Free;
        } else {
            self.state = AccessState::Reading(readers - 1);
        }
    }

    /// Takes back the write ticket.
    pub fn release_mutable(&mut self, ticket: AccessTicket<ReadWrite>)
        requires
            old(self)@.writers == 1,
        ensures
            final(self)@ == old(self)@.without_writer(),
    {
        self.state = AccessState::Free;
    }

    /// The value at a glance: a read that begins and ends at once and needs no ticket.
    /// It is refused while the write ticket is outstanding.
    pub fn try_read(&self) -> (value: Option<&T>)
        ensures
            value.is_some() == (self@.writers == 0),
            value.is_some() ==> *value.unwrap() == self@.value,
    {
        match self.state {
            AccessState::Writing => None,
            _ => Some(&self.value),
        }
    }

    /// The value, seen through a read ticket.
    pub fn read(&self, ticket: &AccessTicket<ReadOnly>) -> (value: &T)
        requires
            self@.readers > 0,
        ensures
            *value == self@.value,
    {
        &self.value
    }

    /// The value, open for writing through the write ticket. What the caller leaves
    /// there is the cell's value afterwards; the outstanding tickets stay as they are.
    pub fn write(&mut self, ticket: &AccessTicket<ReadWrite>) -> (target: &mut T)
        requires
            old(self)@.writers == 1,
        ensures
            *target == old(self)@.value,
            final(self)@ == old(self)@.with_value(*final(target)),
    {
        &mut self.value
    }
}

/// A write ticket is never outstanding twice, and never together with a read ticket.
pub proof fn lemma_write_access_is_exclusive<T>(cell: AccessCell<T>)
    ensures
        cell@.writers <= 1,
        cell@.writers == 1 ==> cell@.readers == 0,
{
}

} // verus!
