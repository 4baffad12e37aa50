use vstd::prelude::*;

use crate::coordinate::{abs_diff, min_int, unsigned_abs_diff, Coordinate};
use crate::size::MAX_AXIS_EXTENT;
use crate::size2d::Size2D;

verus! {

/// A worldspace or offset column position, without a `y` component.
#[derive(Clone, Copy, Debug, PartialEq, Eq, Hash, Structural)]
pub struct Coordinate2D {
    pub x: i32,
    pub z: i32,
}

impl Coordinate2D {
    /// Create a new 2D coordinate.
    pub fn new(x: i32, z: i32) -> (r: Self)
        ensures
            r == (Coordinate2D { x, z }),
    {
        Coordinate2D { x, z }
    }

    pub open spec fn min_spec(self, other: Self) -> Coordinate2D {
        Coordinate2D {
            x: min_int(self.x as int, other.x as int) as i32,
            z: min_int(self.z as int, other.z as int) as i32,
        }
    }

    /// Component-wise minimum of two coordinates.
    pub fn min(self, other: Self) -> (r: Self)
        ensures
            r == self.min_spec(other),
    {
        Coordinate2D {
            x: if self.x <= other.x { self.x } else { other.x },
            z: if self.z <= other.z { self.z } else { other.z },
        }
    }

    /// The pair spans a rectangle whose extent fits `u32` on both axes.
    pub open spec fn spans_with(self, other: Self) -> bool {
        &&& abs_diff(self.x as int, other.x as int) < u32::MAX
        &&& abs_diff(self.z as int, other.z as int) < u32::MAX
    }

    pub open spec fn size_between_spec(self, other: Self) -> Size2D {
        Size2D {
            x: (abs_diff(self.x as int, other.x as int) + 1) as u32,
            z: (abs_diff(self.z as int, other.z as int) + 1) as u32,
        }
    }

    /// Extent of the rectangle with corners `self` and `other`: `|delta| + 1` per axis.
    pub fn size_between(self, other: Self) -> (r: Size2D)
        requires
            self.spans_with(other),
        ensures
            r == self.size_between_spec(other),
            r.x == abs_diff(self.x as int, other.x as int) + 1,
            r.z == abs_diff(self.z as int, other.z as int) + 1,
    {
        Size2D { x: unsigned_abs_diff(self.x, other.x) + 1, z: unsigned_abs_diff(self.z, other.z) + 1 }
    }

    /// Whether the rectangle with corners `self` and `other` can be held as a
    /// grid: its extent fits `u32`, each offset fits `i32`, its cell count fits `usize`.
    pub fn spans_grid_with(self, other: Self) -> (r: bool)
        ensures
            r == (self.spans_with(other) && self.size_between_spec(other).is_grid_extent()),
    {
        let (dx, dz) = (unsigned_abs_diff(self.x, other.x), unsigned_abs_diff(self.z, other.z));
        if dx >= MAX_AXIS_EXTENT || dz >= MAX_AXIS_EXTENT {
            return false;
        }
        let size = self.size_between(other);
        let (x, z) = (size.x as u128, size.z as u128);
        assert(x * z <= 0xffff_ffff_ffff_ffff) by (nonlinear_arith)
            requires
                x < 0x1_0000_0000,
                z < 0x1_0000_0000,
        ;
        x * z <= usize::MAX as u128
    }

    /// Absolute value of each component.
    pub fn magnitude(self) -> (r: Size2D)
        ensures
            r.x == abs_diff(self.x as int, 0),
            r.z == abs_diff(self.z as int, 0),
    {
        Size2D { x: unsigned_abs_diff(self.x, 0), z: unsigned_abs_diff(self.z, 0) }
    }

    /// The 3D coordinate of this column at `height`.
    pub fn with_height(self, height: i32) -> (r: Coordinate)
        ensures
            r == (Coordinate { x: self.x, y: height, z: self.z }),
    {
        Coordinate { x: self.x, y: height, z: self.z }
    }

    /// Swap `x` and `z` when `condition` holds.
    pub fn flip_if(self, condition: bool) -> (r: Self)
        ensures
            r == (if condition { Coordinate2D { x: self.z, z: self.x } } else { self }),
    {
        if condition {
            Coordinate2D::new(self.z, self.x)
        } else {
            self
        }
    }

    /// Component-wise sum.
    pub fn add(self, other: Self) -> (r: Self)
        requires
            i32::MIN <= self.x + other.x <= i32::MAX,
            i32::MIN <= self.z + other.z <= i32::MAX,
        ensures
            r.x == self.x + other.x,
            r.z == self.z + other.z,
    {
        Coordinate2D { x: self.x + other.x, z: self.z + other.z }
    }

    /// Component-wise difference.
    pub fn sub(self, other: Self) -> (r: Self)
        requires
            i32::MIN <= self.x - other.x <= i32::MAX,
            i32::MIN <= self.z - other.z <= i32::MAX,
        ensures
            r.x == self.x - other.x,
            r.z == self.z - other.z,
    {
        Coordinate2D { x: self.x - other.x, z: self.z - other.z }
    }
}

/// The extent between two columns does not depend on their order, and the
/// origin of the rectangle is their component-wise minimum.
pub proof fn lemma_size_between_symmetric_2d(a: Coordinate2D, b: Coordinate2D)
    requires
        a.spans_with(b),
    ensures
        b.spans_with(a),
        a.size_between_spec(b) == b.size_between_spec(a),
        a.min_spec(b) == b.min_spec(a),
        a.min_spec(b).x <= a.x && a.min_spec(b).x <= b.x,
        a.min_spec(b).z <= a.z && a.min_spec(b).z <= b.z,
        a.min_spec(b).x == a.x || a.min_spec(b).x == b.x,
        a.min_spec(b).z == a.z || a.min_spec(b).z == b.z,
{
}

} // verus!
