//! Small vectors of unsigned integers, the shape of every index and dimension
//! of a launch.

use vstd::prelude::*;

verus! {

/// A triple of unsigned integers: an index or a dimension along x, y and z.
#[derive(Clone, Copy, Debug, PartialEq, Eq, Structural)]
pub struct UVec3 {
    pub x: usize,
    pub y: usize,
    pub z: usize,
}

/// A pair of unsigned integers along x and y.
#[derive(Clone, Copy, Debug, PartialEq, Eq, Structural)]
pub struct UVec2 {
    pub x: usize,
    pub y: usize,
}

impl UVec3 {
    /// The product of the three components.
    pub open spec fn volume(self) -> int {
        self.x * self.y * self.z
    }

    /// Every component of `self` lies below the same component of `bound`.
    pub open spec fn below(self, bound: UVec3) -> bool {
        self.x < bound.x && self.y < bound.y && self.z < bound.z
    }

    /// Every component is at least one.
    pub open spec fn nonempty(self) -> bool {
        self.x >= 1 && self.y >= 1 && self.z >= 1
    }

    pub open spec fn is_zero(self) -> bool {
        self.x == 0 && self.y == 0 && self.z == 0
    }

    pub fn new(x: usize, y: usize, z: usize) -> (r: UVec3)
        ensures
            r.x == x,
            r.y == y,
            r.z == z,
    {
        UVec3 { x, y, z }
    }

    pub fn zero() -> (r: UVec3)
        ensures
            r.is_zero(),
    {
        UVec3 { x: 0, y: 0, z: 0 }
    }

    /// The product of the three components, when it and the product of the
    /// first two fit in a `usize`.
    pub fn product(&self) -> (r: usize)
        requires
            self.x * self.y <= usize::MAX,
            self.volume() <= usize::MAX,
        ensures
            r == self.volume(),
    {
        self.x * self.y * self.z
    }
}

impl UVec2 {
    pub fn new(x: usize, y: usize) -> (r: UVec2)
        ensures
            r.x == x,
            r.y == y,
    {
        UVec2 { x, y }
    }
}

} // verus!
