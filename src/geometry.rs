use vstd::prelude::*;

verus! {

/// A point or a size on the terminal grid.
#[derive(Clone, Copy, Debug, PartialEq, Eq, Structural)]
pub struct Vec2 {
    pub x: i32,
    pub y: i32,
}

/// True when `v` fits in an `i32`.
pub open spec fn fits_i32(v: int) -> bool {
    i32::MIN <= v <= i32::MAX
}

impl Vec2 {
    pub fn new(x: i32, y: i32) -> (r: Vec2)
        ensures
            r.x == x,
            r.y == y,
    {
        Vec2 { x, y }
    }

    /// Component-wise sum.
    pub fn add(self, rhs: Vec2) -> (r: Vec2)
        requires
            fits_i32(self.x + rhs.x),
            fits_i32(self.y + rhs.y),
        ensures
            r.x == self.x + rhs.x,
            r.y == self.y + rhs.y,
    {
        Vec2 { x: self.x + rhs.x, y: self.y + rhs.y }
    }

    /// Component-wise product.
    pub fn mul(self, rhs: Vec2) -> (r: Vec2)
        requires
            fits_i32(self.x * rhs.x),
            fits_i32(self.y * rhs.y),
        ensures
            r.x == self.x * rhs.x,
            r.y == self.y * rhs.y,
    {
        Vec2 { x: self.x * rhs.x, y: self.y * rhs.y }
    }
}

} // verus!
