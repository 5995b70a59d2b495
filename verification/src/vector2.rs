//! A pair of coordinates.
use vstd::prelude::*;

verus! {

/// A two-dimensional vector.
pub struct Vector2<NumericType> {
    pub x: NumericType,
    pub y: NumericType,
}

impl<NumericType> Vector2<NumericType> {
    /// The vector `(x, y)`.
    pub fn new(x: NumericType, y: NumericType) -> (v: Self)
        ensures
            v.x == x,
            v.y == y,
    {
        Vector2 { x, y }
    }
}

} // verus!
