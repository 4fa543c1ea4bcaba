//! A one-field owning wrapper that forwards read and write access to what it holds.

use vstd::prelude::*;

verus! {

/// A single-element tuple acting as a trivial generic container.
pub struct MyBox<T>(pub T);

impl<T> View for MyBox<T> {
    type V = T;

    /// The value that the wrapper owns.
    open spec fn view(&self) -> T {
        self.0
    }
}

impl<T> MyBox<T> {
    /// Moves `data` into a new wrapper.
    pub fn new(data: T) -> (wrapper: MyBox<T>)
        ensures
            wrapper@ == data,
    {
        MyBox(data)
    }

    /// Moves the value back out of the wrapper.
    pub fn into_inner(self) -> (data: T)
        ensures
            data == self@,
    {
        self.0
    }
}

impl<T> core::ops::Deref for MyBox<T> {
    type Target = T;

    /// Read view of the contents.
    fn deref(&self) -> (target: &T)
        ensures
            *target == self@,
    {
        &self.0
    }
}

impl<T> core::ops::DerefMut for MyBox<T> {
    /// Write view of the contents: whatever is written through it is what the wrapper holds afterwards.
    fn deref_mut(&mut self) -> (target: &mut T)
        ensures
            *target == old(self)@,
            final(self)@ == *final(target),
    {
        &mut self.0
    }
}

} // verus!
