//! The cell that holds the state two callbacks share.

use vstd::prelude::*;

verus! {

/// A cell with one accessible owner at a time.
///
/// The read side and the write side of a transfer work on the same state,
/// never at the same instant: the event loop runs one callback at a time.
/// The cell makes that discipline a matter of borrowing: whoever holds the
/// cell mutably is the one side that runs.
pub struct RcMut<T> {
    inner: T,
}

impl<T> View for RcMut<T> {
    type V = T;

    closed spec fn view(&self) -> T {
        self.inner
    }
}

impl<T> RcMut<T> {
    /// Create a new RcMut for a value.
    pub fn new(val: T) -> (cell: RcMut<T>)
        ensures
            cell@ == val,
    {
        RcMut { inner: val }
    }

    /// Get a reference to the value.
    pub fn borrow(&self) -> (val: &T)
        ensures
            *val == self@,
    {
        &self.inner
    }

    /// Get a mutable reference to the value.
    pub fn borrow_mut(&mut self) -> (val: &mut T)
        ensures
            *val == old(self)@,
            final(self)@ == *final(val),
    {
        &mut self.inner
    }

    /// Give the value back.
    pub fn into_inner(self) -> (val: T)
        ensures
            val == self@,
    {
        self.inner
    }
}

} // verus!
