//! A point whose two coordinates may have different types.

use vstd::prelude::*;

verus! {

/// A point with an `x` coordinate of one type and a `y` coordinate of
/// another.
pub struct Point<T, U> {
    pub x: T,
    pub y: U,
}

impl<T, U> Point<T, U> {
    /// Borrows the `x` coordinate.
    pub fn _x(&self) -> (r: &T)
        ensures
            *r == self.x,
    {
        &self.x
    }

    /// Borrows the `y` coordinate.
    pub fn _y(&self) -> (r: &U)
        ensures
            *r == self.y,
    {
        &self.y
    }

    /// Combines this point's `x` with another point's `y`.
    pub fn _mix_up<V, W>(self, other: Point<V, W>) -> (r: Point<T, W>)
        ensures
            r.x == self.x,
            r.y == other.y,
    {
        Point { x: self.x, y: other.y }
    }
}

} // verus!
