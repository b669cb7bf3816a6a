use vstd::prelude::*;

verus! {

/// A two dimensional vector.
#[derive(Clone, Copy, PartialEq, Eq, Debug, Structural)]
pub struct Vec2<T> {
    pub x: T,
    pub y: T,
}

/// `true` when `v` lies in the range of an `i32`.
pub open spec fn fits_i32(v: int) -> bool {
    i32::MIN <= v <= i32::MAX
}

impl Vec2<i32> {
    /// Dot product of two integer vectors.
    pub fn dot(&self, other: Vec2<i32>) -> (r: i32)
        requires
            fits_i32(self.x * other.x),
            fits_i32(self.y * other.y),
            fits_i32(self.x * other.x + self.y * other.y),
        ensures
            r == self.x * other.x + self.y * other.y,
    {
        (self.x * other.x) + (self.y * other.y)
    }

    /// Squared length, computed in `i32`.
    pub fn sqr_len(&self) -> (r: i32)
        requires
            fits_i32(self.x * self.x),
            fits_i32(self.y * self.y),
            fits_i32(self.x * self.x + self.y * self.y),
        ensures
            r == self.x * self.x + self.y * self.y,
    {
        (self.x * self.x) + (self.y * self.y)
    }

    /// Component-wise sum.
    pub fn add(self, rhs: Vec2<i32>) -> (r: Vec2<i32>)
        requires
            fits_i32(self.x + rhs.x),
            fits_i32(self.y + rhs.y),
        ensures
            r.x == self.x + rhs.x,
            r.y == self.y + rhs.y,
    {
        Vec2 { x: self.x + rhs.x, y: self.y + rhs.y }
    }

    /// Component-wise difference.
    pub fn sub(self, rhs: Vec2<i32>) -> (r: Vec2<i32>)
        requires
            fits_i32(self.x - rhs.x),
            fits_i32(self.y - rhs.y),
        ensures
            r.x == self.x - rhs.x,
            r.y == self.y - rhs.y,
    {
        Vec2 { x: self.x - rhs.x, y: self.y - rhs.y }
    }

    /// In-place component-wise sum.
    pub fn add_assign(&mut self, other: Vec2<i32>)
        requires
            fits_i32(old(self).x + other.x),
            fits_i32(old(self).y + other.y),
        ensures
            final(self).x == old(self).x + other.x,
            final(self).y == old(self).y + other.y,
    {
        *self = Vec2 { x: self.x + other.x, y: self.y + other.y };
    }
}

} // verus!
