//! Integer positions in the voxel grid.

use vstd::prelude::*;

verus! {

/// A cell of the voxel grid, or an offset between two cells.
#[derive(Clone, Copy, Debug, PartialEq, Eq, Structural, Hash)]
pub struct Point {
    pub x: i32,
    pub y: i32,
    pub z: i32,
}

impl Point {
    /// The point with the given coordinates.
    pub fn new(x: i32, y: i32, z: i32) -> (p: Point)
        ensures
            p == (Point { x, y, z }),
    {
        Point { x, y, z }
    }

    /// Whether each coordinate of `self + d` fits the grid's integer range.
    pub open spec fn can_shift(self, d: Point) -> bool {
        &&& i32::MIN <= self.x + d.x <= i32::MAX
        &&& i32::MIN <= self.y + d.y <= i32::MAX
        &&& i32::MIN <= self.z + d.z <= i32::MAX
    }

    /// The point `self + d`, coordinate by coordinate.
    pub open spec fn shifted(self, d: Point) -> Point {
        Point { x: (self.x + d.x) as i32, y: (self.y + d.y) as i32, z: (self.z + d.z) as i32 }
    }

    /// Moves the point by `d`.
    pub fn shift(self, d: Point) -> (p: Point)
        requires
            self.can_shift(d),
        ensures
            p == self.shifted(d),
    {
        Point { x: self.x + d.x, y: self.y + d.y, z: self.z + d.z }
    }
}

} // verus!
