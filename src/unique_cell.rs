//! A heap slot with exactly one owner.

use vstd::prelude::*;

verus! {

/// Owns one value on the heap. Moving the cell moves the ownership;
/// `into_inner` consumes the cell, so it cannot be used afterwards.
pub struct UniqueCell<T> {
    payload: Box<T>,
}

impl<T> View for UniqueCell<T> {
    type V = T;

    closed spec fn view(&self) -> T {
        *self.payload
    }
}

impl<T> UniqueCell<T> {
    /// Moves `value` into a new cell.
    pub fn new(value: T) -> (r: Self)
        ensures
            r@ == value,
    {
        UniqueCell { payload: Box::new(value) }
    }

    /// Shared access to the value.
    pub fn get(&self) -> (r: &T)
        ensures
            *r == self@,
    {
        &self.payload
    }

    /// Exclusive access to the value; what is written through it is what
    /// the cell holds afterwards.
    pub fn get_mut(&mut self) -> (r: &mut T)
        ensures
            *r == old(self)@,
            final(self)@ == *final(r),
    {
        &mut self.payload
    }

    /// Consumes the cell and hands back the value it held.
    pub fn into_inner(self) -> (r: T)
        ensures
            r == self@,
    {
        *self.payload
    }
}

/// Storing a value with `new` and taking it back with `into_inner` returns
/// the value stored: here `cell` is what `new(value)` gave and `out` is what
/// `into_inner(cell)` gave, each as their postconditions describe them.
pub proof fn lemma_round_trip<T>(value: T, cell: UniqueCell<T>, out: T)
    requires
        cell@ == value,
        out == cell@,
    ensures
        out == value,
{
}

} // verus!
