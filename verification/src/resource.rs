//! A single-value resource cell with move-out exclusive access.

use vstd::prelude::*;

verus! {

/// A resource wrapper granting scoped access to one value.  A shared
/// borrow comes straight from [`Resource::get`]; exclusive access moves
/// the value out through [`Resource::get_mut`] and puts it back with
/// [`Resource::release`], so the cell can never be borrowed twice at once.
pub struct Resource<T> {
    inner: Option<T>,
}

impl<T> View for Resource<T> {
    type V = Option<T>;

    closed spec fn view(&self) -> Option<T> {
        self.inner
    }
}

impl<T> Resource<T> {
    /// Creates a cell holding `value`.
    pub fn new(value: T) -> (r: Self)
        ensures
            r@ == Some(value),
    {
        Resource { inner: Some(value) }
    }

    /// Whether the value is present, i.e. not currently moved out.
    pub fn is_available(&self) -> (r: bool)
        ensures
            r == (self@ is Some),
    {
        self.inner.is_some()
    }

    /// Borrows the resource immutably.
    pub fn get(&self) -> (r: &T)
        requires
            self@ is Some,
        ensures
            self@ == Some(*r),
    {
        self.inner.as_ref().unwrap()
    }

    /// Takes the resource out for exclusive mutation; the cell stays empty
    /// — refusing every further borrow — until [`Resource::release`] puts
    /// a value back.
    pub fn get_mut(&mut self) -> (value: T)
        requires
            old(self)@ is Some,
        ensures
            old(self)@ == Some(value),
            final(self)@ is None,
    {
        self.inner.take().unwrap()
    }

    /// Puts a value back into the emptied cell.
    pub fn release(&mut self, value: T)
        requires
            old(self)@ is None,
        ensures
            final(self)@ == Some(value),
    {
        self.inner = Some(value);
    }
}

} // verus!
