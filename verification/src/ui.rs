use vstd::prelude::*;

verus! {

/// A point of the user interface, in some unit `T`.
#[derive(Clone, Copy, Debug, PartialEq, Eq)]
pub struct Point<T> {
    pub x: T,
    pub y: T,
}

impl<T> Point<T> {
    /// The point `(x, y)`.
    pub fn new(x: T, y: T) -> (r: Self)
        ensures
            r.x == x,
            r.y == y,
    {
        Point { x, y }
    }
}

/// A size of the user interface, in some unit `T`.
#[derive(Clone, Copy, Debug, PartialEq, Eq)]
pub struct Size<T> {
    pub width: T,
    pub height: T,
}

/// How an element is placed: in the flow of its siblings, or at a position
/// of its own.
#[derive(Clone, Copy, Debug, PartialEq, Eq, Structural)]
pub enum Positioning {
    Relative,
    Absolute,
}

} // verus!
