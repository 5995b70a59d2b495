//! An axis-aligned rectangle anchored at the origin.
use vstd::prelude::*;

verus! {

/// A `width` by `height` rectangle whose corner is at the origin.
pub struct Rect<NumericType> {
    width: NumericType,
    height: NumericType,
}

impl<NumericType> Rect<NumericType> {
    /// The width it was made with.
    pub closed spec fn spec_width(&self) -> NumericType {
        self.width
    }

    /// The height it was made with.
    pub closed spec fn spec_height(&self) -> NumericType {
        self.height
    }
}

impl<NumericType> Rect<NumericType> where NumericType: Copy {
    /// A rectangle `height` tall and `width` wide.
    pub fn new(height: NumericType, width: NumericType) -> (rect: Self)
        ensures
            rect.spec_height() == height,
            rect.spec_width() == width,
    {
        Rect { width, height }
    }

    /// The width.
    pub fn w(&self) -> (w: NumericType)
        ensures
            w == self.spec_width(),
    {
        self.width
    }

    /// The height.
    pub fn h(&self) -> (h: NumericType)
        ensures
            h == self.spec_height(),
    {
        self.height
    }
}

impl Rect<usize> {
    /// Whether the point `(x, y)` lies inside: `0 <= x < width` and `0 <= y < height`.
    pub fn contains(&self, x: usize, y: usize) -> (inside: bool)
        ensures
            inside == (x < self.spec_width() && y < self.spec_height()),
    {
        (0..self.height).contains(&(y)) && (0..self.width).contains(&(x))
    }
}

} // verus!
