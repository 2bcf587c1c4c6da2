//! A one-field wrapper in the shape of a smart pointer.

use vstd::prelude::*;

verus! {

/// A wrapper holding a single value.
pub struct MyBox<T>(pub T);

impl<T> MyBox<T> {
    /// Wraps the value.
    pub fn new(x: T) -> (b: MyBox<T>)
        ensures
            b.0 == x,
    {
        MyBox(x)
    }

    /// Borrows the wrapped value.
    pub fn inner(&self) -> (r: &T)
        ensures
            *r == self.0,
    {
        &self.0
    }
}

} // verus!
