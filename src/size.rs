use vstd::arithmetic::div_mod::{
    lemma_fundamental_div_mod, lemma_fundamental_div_mod_converse, lemma_mod_pos_bound,
    lemma_multiply_divide_lt,
};
use vstd::prelude::*;

use crate::coordinate::Coordinate;
use crate::size2d::Size2D;

verus! {

/// Largest extent per axis whose offsets all fit `i32`.
pub const MAX_AXIS_EXTENT: u32 = 0x8000_0000;

/// 3D extent of a cuboid, in blocks.
///
/// Cells are laid out with `z` varying fastest, then `x`, then `y`.
#[derive(Clone, Copy, Debug, PartialEq, Eq, Hash, Structural)]
pub struct Size {
    pub x: u32,
    pub y: u32,
    pub z: u32,
}

impl Size {
    pub open spec fn volume_spec(self) -> int {
        self.x * self.y * self.z
    }

    /// The offset `(x, y, z)` lies inside the extent.
    pub open spec fn in_extent(self, x: int, y: int, z: int) -> bool {
        &&& 0 <= x < self.x
        &&& 0 <= y < self.y
        &&& 0 <= z < self.z
    }

    /// Row-major index of an offset, `z` fastest.
    pub open spec fn index_of(self, x: int, y: int, z: int) -> int {
        z + (x + y * self.x) * self.z
    }

    pub open spec fn offset_x(self, i: int) -> int {
        (i / self.z as int) % self.x as int
    }

    pub open spec fn offset_y(self, i: int) -> int {
        (i / self.z as int) / self.x as int
    }

    pub open spec fn offset_z(self, i: int) -> int {
        i % self.z as int
    }

    /// Extent of a grid: at least one cell per axis, every offset fits `i32`
    /// and the cell count fits `usize`.
    pub open spec fn is_grid_extent(self) -> bool {
        &&& 1 <= self.x <= MAX_AXIS_EXTENT
        &&& 1 <= self.y <= MAX_AXIS_EXTENT
        &&& 1 <= self.z <= MAX_AXIS_EXTENT
        &&& self.volume_spec() <= usize::MAX
    }

    /// The offset coordinate of index `i`.
    pub open spec fn offset_of(self, i: int) -> Coordinate {
        Coordinate {
            x: self.offset_x(i) as i32,
            y: self.offset_y(i) as i32,
            z: self.offset_z(i) as i32,
        }
    }

    /// A grid of this extent placed at `origin` stays within `i32` coordinates.
    pub open spec fn fits_at(self, origin: Coordinate) -> bool {
        &&& origin.x + self.x - 1 <= i32::MAX
        &&& origin.y + self.y - 1 <= i32::MAX
        &&& origin.z + self.z - 1 <= i32::MAX
    }

    /// Create a new size.
    pub fn new(x: u32, y: u32, z: u32) -> (r: Self)
        ensures
            r == (Size { x, y, z }),
    {
        Size { x, y, z }
    }

    /// Whether the **offset** coordinate lies within the extent.
    pub fn contains(self, coordinate: Coordinate) -> (r: bool)
        ensures
            r == self.in_extent(coordinate.x as int, coordinate.y as int, coordinate.z as int),
    {
        0 <= coordinate.x && (coordinate.x as i64) < (self.x as i64) && 0 <= coordinate.y
            && (coordinate.y as i64) < (self.y as i64) && 0 <= coordinate.z && (coordinate.z as i64)
            < (self.z as i64)
    }

    /// Convert a grid index to an **offset** coordinate.
    pub fn index_to_offset(self, index: usize) -> (r: Coordinate)
        requires
            self.is_grid_extent(),
            index < self.volume_spec(),
        ensures
            r == self.offset_of(index as int),
            r.x == self.offset_x(index as int),
            r.y == self.offset_y(index as int),
            r.z == self.offset_z(index as int),
            self.in_extent(r.x as int, r.y as int, r.z as int),
    {
        proof {
            lemma_index_round_trip(self, index as int);
        }
        let z = index % (self.z as usize);
        let xy = index / (self.z as usize);
        let x = xy % (self.x as usize);
        let y = xy / (self.x as usize);
        Coordinate { x: x as i32, y: y as i32, z: z as i32 }
    }

    /// Convert an **offset** coordinate inside the extent to a grid index.
    pub fn offset_to_index(self, coordinate: Coordinate) -> (r: usize)
        requires
            self.volume_spec() <= usize::MAX,
            self.in_extent(coordinate.x as int, coordinate.y as int, coordinate.z as int),
        ensures
            r == self.index_of(coordinate.x as int, coordinate.y as int, coordinate.z as int),
            r < self.volume_spec(),
    {
        proof {
            lemma_index_in_bounds(self, coordinate.x as int, coordinate.y as int, coordinate.z as int);
        }
        let (x, y, z) = (coordinate.x as u128, coordinate.y as u128, coordinate.z as u128);
        let (sx, sz) = (self.x as u128, self.z as u128);
        assert(y * sx <= 0xffff_ffff_ffff_ffff) by (nonlinear_arith)
            requires
                y < 0x1_0000_0000,
                sx < 0x1_0000_0000,
        ;
        assert((x + y * sx) * sz <= 0xffff_ffff_ffff_ffff_ffff_ffff_ffff) by (nonlinear_arith)
            requires
                x + y * sx < 0x2_0000_0000_0000_0000,
                sz < 0x1_0000_0000,
        ;
        (z + (x + y * sx) * sz) as usize
    }

    /// Number of cells in the cuboid.
    pub fn volume(self) -> (r: usize)
        requires
            self.volume_spec() <= usize::MAX,
        ensures
            r == self.volume_spec(),
    {
        let (x, y, z) = (self.x as u128, self.y as u128, self.z as u128);
        assert(x * y <= 0xffff_ffff_ffff_ffff) by (nonlinear_arith)
            requires
                x < 0x1_0000_0000,
                y < 0x1_0000_0000,
        ;
        assert(x * y * z <= 0xffff_ffff_ffff_ffff_ffff_ffff_ffff) by (nonlinear_arith)
            requires
                x * y <= 0xffff_ffff_ffff_ffff,
                z < 0x1_0000_0000,
        ;
        (x * y * z) as usize
    }

    /// The horizontal part of the extent.
    pub fn flat(self) -> (r: Size2D)
        ensures
            r == (Size2D { x: self.x, z: self.z }),
    {
        Size2D { x: self.x, z: self.z }
    }
}

/// Every index of a grid names an offset inside the extent, and converting
/// that offset back gives the same index.
pub proof fn lemma_index_round_trip(size: Size, i: int)
    requires
        size.x >= 1,
        size.y >= 1,
        size.z >= 1,
        0 <= i < size.volume_spec(),
    ensures
        size.in_extent(size.offset_x(i), size.offset_y(i), size.offset_z(i)),
        size.index_of(size.offset_x(i), size.offset_y(i), size.offset_z(i)) == i,
{
    let (sx, sy, sz) = (size.x as int, size.y as int, size.z as int);
    let xy = i / sz;
    lemma_fundamental_div_mod(i, sz);
    lemma_fundamental_div_mod(xy, sx);
    lemma_mod_pos_bound(i, sz);
    assert(i < sz * (sx * sy)) by (nonlinear_arith)
        requires
            i < sx * sy * sz,
    ;
    lemma_multiply_divide_lt(i, sz, sx * sy);
    assert(0 <= xy) by (nonlinear_arith)
        requires
            0 <= i,
            0 < sz,
            xy == i / sz,
    ;
    lemma_mod_pos_bound(xy, sx);
    lemma_multiply_divide_lt(xy, sx, sy);
    assert(0 <= xy / sx) by (nonlinear_arith)
        requires
            0 <= xy,
            0 < sx,
    ;
    let (ox, oy, oz) = (xy % sx, xy / sx, i % sz);
    assert(oz + (ox + oy * sx) * sz == i) by (nonlinear_arith)
        requires
            i == sz * xy + oz,
            xy == sx * oy + ox,
    ;
}

/// Every offset inside the extent is named by exactly one index: converting
/// it to an index and back gives the same offset.
pub proof fn lemma_offset_round_trip(size: Size, x: int, y: int, z: int)
    requires
        size.in_extent(x, y, z),
    ensures
        0 <= size.index_of(x, y, z) < size.volume_spec(),
        size.offset_x(size.index_of(x, y, z)) == x,
        size.offset_y(size.index_of(x, y, z)) == y,
        size.offset_z(size.index_of(x, y, z)) == z,
{
    let (sx, sz) = (size.x as int, size.z as int);
    let i = size.index_of(x, y, z);
    lemma_index_in_bounds(size, x, y, z);
    lemma_fundamental_div_mod_converse(i, sz, x + y * sx, z);
    lemma_fundamental_div_mod_converse(x + y * sx, sx, y, x);
}

/// The index of an offset inside the extent lies in `[0, volume)`.
pub proof fn lemma_index_in_bounds(size: Size, x: int, y: int, z: int)
    requires
        size.in_extent(x, y, z),
    ensures
        0 <= size.index_of(x, y, z) < size.volume_spec(),
{
    let (sx, sy, sz) = (size.x as int, size.y as int, size.z as int);
    assert(0 <= z + (x + y * sx) * sz < sx * sy * sz) by (nonlinear_arith)
        requires
            0 <= x < sx,
            0 <= y < sy,
            0 <= z < sz,
    ;
}

} // verus!
