use vstd::arithmetic::div_mod::{
    lemma_fundamental_div_mod, lemma_fundamental_div_mod_converse, lemma_mod_pos_bound,
    lemma_multiply_divide_lt,
};
use vstd::prelude::*;

use crate::coordinate2d::Coordinate2D;
use crate::size::{Size, MAX_AXIS_EXTENT};

verus! {

/// 2D extent of a rectangle of columns, in blocks.
///
/// Cells are laid out with `z` varying fastest, then `x`.
#[derive(Clone, Copy, Debug, PartialEq, Eq, Hash, Structural)]
pub struct Size2D {
    pub x: u32,
    pub z: u32,
}

impl Size2D {
    pub open spec fn area_spec(self) -> int {
        self.x * self.z
    }

    /// The offset `(x, z)` lies inside the extent.
    pub open spec fn in_extent(self, x: int, z: int) -> bool {
        &&& 0 <= x < self.x
        &&& 0 <= z < self.z
    }

    /// Row-major index of an offset, `z` fastest.
    pub open spec fn index_of(self, x: int, z: int) -> int {
        z + x * self.z
    }

    pub open spec fn offset_x(self, i: int) -> int {
        i / self.z as int
    }

    pub open spec fn offset_z(self, i: int) -> int {
        i % self.z as int
    }

    /// Extent of a grid: at least one cell per axis, every offset fits `i32`
    /// and the cell count fits `usize`.
    pub open spec fn is_grid_extent(self) -> bool {
        &&& 1 <= self.x <= MAX_AXIS_EXTENT
        &&& 1 <= self.z <= MAX_AXIS_EXTENT
        &&& self.area_spec() <= usize::MAX
    }

    /// The offset coordinate of index `i`.
    pub open spec fn offset_of(self, i: int) -> Coordinate2D {
        Coordinate2D { x: self.offset_x(i) as i32, z: self.offset_z(i) as i32 }
    }

    /// A grid of this extent placed at `origin` stays within `i32` coordinates.
    pub open spec fn fits_at(self, origin: Coordinate2D) -> bool {
        &&& origin.x + self.x - 1 <= i32::MAX
        &&& origin.z + self.z - 1 <= i32::MAX
    }

    /// Create a new size.
    pub fn new(x: u32, z: u32) -> (r: Self)
        ensures
            r == (Size2D { x, z }),
    {
        Size2D { x, z }
    }

    /// Whether the **offset** coordinate lies within the extent.
    pub fn contains(self, coordinate: Coordinate2D) -> (r: bool)
        ensures
            r == self.in_extent(coordinate.x as int, coordinate.z as int),
    {
        0 <= coordinate.x && (coordinate.x as i64) < (self.x as i64) && 0 <= coordinate.z
            && (coordinate.z as i64) < (self.z as i64)
    }

    /// Convert a grid index to an **offset** coordinate.
    pub fn index_to_offset(self, index: usize) -> (r: Coordinate2D)
        requires
            self.is_grid_extent(),
            index < self.area_spec(),
        ensures
            r == self.offset_of(index as int),
            r.x == self.offset_x(index as int),
            r.z == self.offset_z(index as int),
            self.in_extent(r.x as int, r.z as int),
    {
        proof {
            lemma_index_round_trip_2d(self, index as int);
        }
        let z = index % (self.z as usize);
        let x = index / (self.z as usize);
        Coordinate2D { x: x as i32, z: z as i32 }
    }

    /// Convert an **offset** coordinate inside the extent to a grid index.
    pub fn offset_to_index(self, coordinate: Coordinate2D) -> (r: usize)
        requires
            self.area_spec() <= usize::MAX,
            self.in_extent(coordinate.x as int, coordinate.z as int),
        ensures
            r == self.index_of(coordinate.x as int, coordinate.z as int),
            r < self.area_spec(),
    {
        proof {
            lemma_index_in_bounds_2d(self, coordinate.x as int, coordinate.z as int);
        }
        let (x, z, sz) = (coordinate.x as u128, coordinate.z as u128, self.z as u128);
        assert(x * sz <= 0xffff_ffff_ffff_ffff) by (nonlinear_arith)
            requires
                x < 0x1_0000_0000,
                sz < 0x1_0000_0000,
        ;
        (z + x * sz) as usize
    }

    /// Number of columns in the rectangle.
    pub fn area(self) -> (r: usize)
        requires
            self.area_spec() <= usize::MAX,
        ensures
            r == self.area_spec(),
    {
        let (x, z) = (self.x as u128, self.z as u128);
        assert(x * z <= 0xffff_ffff_ffff_ffff) by (nonlinear_arith)
            requires
                x < 0x1_0000_0000,
                z < 0x1_0000_0000,
        ;
        (x * z) as usize
    }

    /// The 3D extent of this rectangle with `height` layers.
    pub fn with_height(self, height: u32) -> (r: Size)
        ensures
            r == (Size { x: self.x, y: height, z: self.z }),
    {
        Size { x: self.x, y: height, z: self.z }
    }

    /// Swap `x` and `z` when `condition` holds.
    pub fn flip_if(self, condition: bool) -> (r: Self)
        ensures
            r == (if condition { Size2D { x: self.z, z: self.x } } else { self }),
    {
        if condition {
            Size2D::new(self.z, self.x)
        } else {
            self
        }
    }
}

/// Every index of a 2D grid names an offset inside the extent, and converting
/// that offset back gives the same index.
pub proof fn lemma_index_round_trip_2d(size: Size2D, i: int)
    requires
        size.x >= 1,
        size.z >= 1,
        0 <= i < size.area_spec(),
    ensures
        size.in_extent(size.offset_x(i), size.offset_z(i)),
        size.index_of(size.offset_x(i), size.offset_z(i)) == i,
{
    let (sx, sz) = (size.x as int, size.z as int);
    lemma_fundamental_div_mod(i, sz);
    lemma_mod_pos_bound(i, sz);
    assert(i < sz * sx) by (nonlinear_arith)
        requires
            i < sx * sz,
    ;
    lemma_multiply_divide_lt(i, sz, sx);
    assert(0 <= i / sz) by (nonlinear_arith)
        requires
            0 <= i,
            0 < sz,
    ;
    assert(i % sz + (i / sz) * sz == i) by (nonlinear_arith)
        requires
            i == sz * (i / sz) + i % sz,
    ;
}

/// Every offset inside a 2D extent is named by exactly one index.
pub proof fn lemma_offset_round_trip_2d(size: Size2D, x: int, z: int)
    requires
        size.in_extent(x, z),
    ensures
        0 <= size.index_of(x, z) < size.area_spec(),
        size.offset_x(size.index_of(x, z)) == x,
        size.offset_z(size.index_of(x, z)) == z,
{
    lemma_index_in_bounds_2d(size, x, z);
    lemma_fundamental_div_mod_converse(size.index_of(x, z), size.z as int, x, z);
}

/// The index of an offset inside a 2D extent lies in `[0, area)`.
pub proof fn lemma_index_in_bounds_2d(size: Size2D, x: int, z: int)
    requires
        size.in_extent(x, z),
    ensures
        0 <= size.index_of(x, z) < size.area_spec(),
{
    let (sx, sz) = (size.x as int, size.z as int);
    assert(0 <= z + x * sz < sx * sz) by (nonlinear_arith)
        requires
            0 <= x < sx,
            0 <= z < sz,
    ;
}

} // verus!
