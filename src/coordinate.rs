use vstd::prelude::*;

use crate::coordinate2d::Coordinate2D;
use crate::size::{Size, MAX_AXIS_EXTENT};

verus! {

/// Distance between two integers.
pub open spec fn abs_diff(a: int, b: int) -> int {
    if a >= b {
        a - b
    } else {
        b - a
    }
}

pub open spec fn min_int(a: int, b: int) -> int {
    if a <= b {
        a
    } else {
        b
    }
}

/// Exact `|a - b|` for two `i32` values.
pub(crate) fn unsigned_abs_diff(a: i32, b: i32) -> (r: u32)
    ensures
        r == abs_diff(a as int, b as int),
{
    if a >= b {
        (a as i64 - b as i64) as u32
    } else {
        (b as i64 - a as i64) as u32
    }
}

/// A worldspace or offset position in the world.
#[derive(Clone, Copy, Debug, PartialEq, Eq, Hash, Structural)]
pub struct Coordinate {
    pub x: i32,
    pub y: i32,
    pub z: i32,
}

impl Coordinate {
    /// Create a new coordinate.
    pub fn new(x: i32, y: i32, z: i32) -> (r: Self)
        ensures
            r == (Coordinate { x, y, z }),
    {
        Coordinate { x, y, z }
    }

    pub open spec fn min_spec(self, other: Self) -> Coordinate {
        Coordinate {
            x: min_int(self.x as int, other.x as int) as i32,
            y: min_int(self.y as int, other.y as int) as i32,
            z: min_int(self.z as int, other.z as int) as i32,
        }
    }

    /// Component-wise minimum of two coordinates.
    pub fn min(self, other: Self) -> (r: Self)
        ensures
            r == self.min_spec(other),
    {
        Coordinate {
            x: if self.x <= other.x { self.x } else { other.x },
            y: if self.y <= other.y { self.y } else { other.y },
            z: if self.z <= other.z { self.z } else { other.z },
        }
    }

    /// The pair spans a cuboid whose extent fits `u32` on every axis.
    pub open spec fn spans_with(self, other: Self) -> bool {
        &&& abs_diff(self.x as int, other.x as int) < u32::MAX
        &&& abs_diff(self.y as int, other.y as int) < u32::MAX
        &&& abs_diff(self.z as int, other.z as int) < u32::MAX
    }

    pub open spec fn size_between_spec(self, other: Self) -> Size {
        Size {
            x: (abs_diff(self.x as int, other.x as int) + 1) as u32,
            y: (abs_diff(self.y as int, other.y as int) + 1) as u32,
            z: (abs_diff(self.z as int, other.z as int) + 1) as u32,
        }
    }

    /// Extent of the cuboid with corners `self` and `other`: `|delta| + 1` per axis.
    pub fn size_between(self, other: Self) -> (r: Size)
        requires
            self.spans_with(other),
        ensures
            r == self.size_between_spec(other),
            r.x == abs_diff(self.x as int, other.x as int) + 1,
            r.y == abs_diff(self.y as int, other.y as int) + 1,
            r.z == abs_diff(self.z as int, other.z as int) + 1,
    {
        Size {
            x: unsigned_abs_diff(self.x, other.x) + 1,
            y: unsigned_abs_diff(self.y, other.y) + 1,
            z: unsigned_abs_diff(self.z, other.z) + 1,
        }
    }

    /// Whether the cuboid with corners `self` and `other` can be held as a
    /// grid: its extent fits `u32`, each offset fits `i32`, its cell count fits `usize`.
    pub fn spans_grid_with(self, other: Self) -> (r: bool)
        ensures
            r == (self.spans_with(other) && self.size_between_spec(other).is_grid_extent()),
    {
        let (dx, dy, dz) = (
            unsigned_abs_diff(self.x, other.x),
            unsigned_abs_diff(self.y, other.y),
            unsigned_abs_diff(self.z, other.z),
        );
        if dx >= MAX_AXIS_EXTENT || dy >= MAX_AXIS_EXTENT || dz >= MAX_AXIS_EXTENT {
            return false;
        }
        let size = self.size_between(other);
        let (x, y, z) = (size.x as u128, size.y as u128, size.z as u128);
        assert(x * y <= 0xffff_ffff_ffff_ffff) by (nonlinear_arith)
            requires
                x < 0x1_0000_0000,
                y < 0x1_0000_0000,
        ;
        assert(x * y * z <= 0xffff_ffff_ffff_ffff_ffff_ffff_ffff) by (nonlinear_arith)
            requires
                x * y <= 0xffff_ffff_ffff_ffff,
                z < 0x1_0000_0000,
        ;
        x * y * z <= usize::MAX as u128
    }

    /// Absolute value of each component.
    pub fn magnitude(self) -> (r: Size)
        ensures
            r.x == abs_diff(self.x as int, 0),
            r.y == abs_diff(self.y as int, 0),
            r.z == abs_diff(self.z as int, 0),
    {
        Size {
            x: unsigned_abs_diff(self.x, 0),
            y: unsigned_abs_diff(self.y, 0),
            z: unsigned_abs_diff(self.z, 0),
        }
    }

    /// Drop the `y` component.
    pub fn flat(self) -> (r: Coordinate2D)
        ensures
            r.x == self.x,
            r.z == self.z,
    {
        Coordinate2D { x: self.x, z: self.z }
    }

    /// The same column at another height.
    pub fn with_height(self, height: i32) -> (r: Coordinate)
        ensures
            r == (Coordinate { x: self.x, y: height, z: self.z }),
    {
        Coordinate { x: self.x, y: height, z: self.z }
    }

    /// Component-wise sum.
    pub fn add(self, other: Self) -> (r: Self)
        requires
            i32::MIN <= self.x + other.x <= i32::MAX,
            i32::MIN <= self.y + other.y <= i32::MAX,
            i32::MIN <= self.z + other.z <= i32::MAX,
        ensures
            r.x == self.x + other.x,
            r.y == self.y + other.y,
            r.z == self.z + other.z,
    {
        Coordinate { x: self.x + other.x, y: self.y + other.y, z: self.z + other.z }
    }

    /// Component-wise difference.
    pub fn sub(self, other: Self) -> (r: Self)
        requires
            i32::MIN <= self.x - other.x <= i32::MAX,
            i32::MIN <= self.y - other.y <= i32::MAX,
            i32::MIN <= self.z - other.z <= i32::MAX,
        ensures
            r.x == self.x - other.x,
            r.y == self.y - other.y,
            r.z == self.z - other.z,
    {
        Coordinate { x: self.x - other.x, y: self.y - other.y, z: self.z - other.z }
    }
}

/// The extent between two corners does not depend on their order, and the
/// origin of the cuboid is their component-wise minimum, whichever comes first.
pub proof fn lemma_size_between_symmetric(a: Coordinate, b: Coordinate)
    requires
        a.spans_with(b),
    ensures
        b.spans_with(a),
        a.size_between_spec(b) == b.size_between_spec(a),
        a.min_spec(b) == b.min_spec(a),
        a.min_spec(b).x <= a.x && a.min_spec(b).x <= b.x,
        a.min_spec(b).y <= a.y && a.min_spec(b).y <= b.y,
        a.min_spec(b).z <= a.z && a.min_spec(b).z <= b.z,
        a.min_spec(b).x == a.x || a.min_spec(b).x == b.x,
        a.min_spec(b).y == a.y || a.min_spec(b).y == b.y,
        a.min_spec(b).z == a.z || a.min_spec(b).z == b.z,
{
}

} // verus!
