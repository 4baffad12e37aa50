//! A rectangle of column heights, and the stream that decodes one from a response.
use vstd::prelude::*;

use crate::coordinate2d::Coordinate2D;
use crate::error::{Error, OutOfBoundsError};
use crate::response::{BufReader, ResponseStream};
use crate::size2d::{lemma_index_round_trip_2d, Size2D};
use crate::wire::{
    height_item, height_list, lemma_height_item_len, lemma_height_list_err,
    lemma_height_list_prefix,
};

verus! {

/// The worldspace coordinate of an offset inside a grid placed at `origin`.
pub open spec fn worldspace_of(origin: Coordinate2D, offset: Coordinate2D) -> Coordinate2D {
    Coordinate2D { x: (origin.x + offset.x) as i32, z: (origin.z + offset.z) as i32 }
}

/// A 2D rectangle holding, for each column, the `y` of its highest solid
/// block, kept with the location it was gathered from.
///
/// Cells are stored with `z` varying fastest, then `x`.
#[derive(Debug)]
pub struct Heights {
    list: Vec<i32>,
    origin: Coordinate2D,
    size: Size2D,
}

impl Heights {
    #[verifier::type_invariant]
    spec fn inv(self) -> bool {
        &&& self.size.is_grid_extent()
        &&& self.size.fits_at(self.origin)
        &&& self.list.len() == self.size.area_spec()
    }

    /// The heights, in index order.
    pub closed spec fn cells(&self) -> Seq<i32> {
        self.list@
    }

    pub closed spec fn origin_spec(&self) -> Coordinate2D {
        self.origin
    }

    pub closed spec fn size_spec(&self) -> Size2D {
        self.size
    }

    /// The height at the **offset** coordinate.
    pub fn get_offset(&self, coordinate: Coordinate2D) -> (r: Result<i32, OutOfBoundsError>)
        ensures
            self.size_spec().in_extent(coordinate.x as int, coordinate.z as int) ==> r == Ok::<
                i32,
                OutOfBoundsError,
            >(self.cells()[self.size_spec().index_of(coordinate.x as int, coordinate.z as int)]),
            !self.size_spec().in_extent(coordinate.x as int, coordinate.z as int) ==> r == Err::<
                i32,
                OutOfBoundsError,
            >(OutOfBoundsError),
    {
        proof {
            use_type_invariant(self);
        }
        if !self.size.contains(coordinate) {
            return Err(OutOfBoundsError);
        }
        let index = self.size.offset_to_index(coordinate);
        Ok(self.list[index])
    }

    /// The height at the **worldspace** coordinate.
    pub fn get_worldspace(&self, coordinate: Coordinate2D) -> (r: Result<i32, OutOfBoundsError>)
        ensures
            ({
                let o = self.origin_spec();
                let (dx, dz) = (coordinate.x - o.x, coordinate.z - o.z);
                &&& self.size_spec().in_extent(dx, dz) ==> r == Ok::<i32, OutOfBoundsError>(
                    self.cells()[self.size_spec().index_of(dx, dz)],
                )
                &&& !self.size_spec().in_extent(dx, dz) ==> r == Err::<i32, OutOfBoundsError>(
                    OutOfBoundsError,
                )
            }),
    {
        proof {
            use_type_invariant(self);
        }
        let dx = coordinate.x as i64 - self.origin.x as i64;
        let dz = coordinate.z as i64 - self.origin.z as i64;
        if dx < 0 || dx >= self.size.x as i64 || dz < 0 || dz >= self.size.z as i64 {
            return Err(OutOfBoundsError);
        }
        self.get_offset(coordinate.sub(self.origin))
    }

    /// The origin: the corner with the smallest coordinates.
    pub fn origin(&self) -> (r: Coordinate2D)
        ensures
            r == self.origin_spec(),
    {
        self.origin
    }

    /// The 2D extent.
    pub fn size(&self) -> (r: Size2D)
        ensures
            r == self.size_spec(),
            r.is_grid_extent(),
            self.cells().len() == r.area_spec(),
    {
        proof {
            use_type_invariant(self);
        }
        self.size
    }

    /// The lowest height of the rectangle.
    pub fn min(&self) -> (r: i32)
        ensures
            exists|i: int| 0 <= i < self.cells().len() && self.cells()[i] == r,
            forall|i: int| 0 <= i < self.cells().len() ==> r <= self.cells()[i],
    {
        proof {
            use_type_invariant(self);
        }
        assert(self.size.x * self.size.z >= 1) by (nonlinear_arith)
            requires
                self.size.x >= 1,
                self.size.z >= 1,
        ;
        let mut lowest = self.list[0];
        assert(self.list@[0] == lowest);
        let mut i: usize = 1;
        while i < self.list.len()
            invariant
                1 <= i <= self.list.len(),
                exists|k: int| 0 <= k < i && self.list@[k] == lowest,
                forall|k: int| 0 <= k < i ==> lowest <= self.list@[k],
            decreases self.list.len() - i,
        {
            if self.list[i] < lowest {
                lowest = self.list[i];
                assert(self.list@[i as int] == lowest);
            }
            i += 1;
        }
        proof {
            let k = choose|k: int| 0 <= k < i && self.list@[k] == lowest;
            assert(0 <= k < self.cells().len() && self.cells()[k] == lowest);
        }
        lowest
    }

    /// The highest height of the rectangle.
    pub fn max(&self) -> (r: i32)
        ensures
            exists|i: int| 0 <= i < self.cells().len() && self.cells()[i] == r,
            forall|i: int| 0 <= i < self.cells().len() ==> self.cells()[i] <= r,
    {
        proof {
            use_type_invariant(self);
        }
        assert(self.size.x * self.size.z >= 1) by (nonlinear_arith)
            requires
                self.size.x >= 1,
                self.size.z >= 1,
        ;
        let mut highest = self.list[0];
        assert(self.list@[0] == highest);
        let mut i: usize = 1;
        while i < self.list.len()
            invariant
                1 <= i <= self.list.len(),
                exists|k: int| 0 <= k < i && self.list@[k] == highest,
                forall|k: int| 0 <= k < i ==> self.list@[k] <= highest,
            decreases self.list.len() - i,
        {
            if self.list[i] > highest {
                highest = self.list[i];
                assert(self.list@[i as int] == highest);
            }
            i += 1;
        }
        proof {
            let k = choose|k: int| 0 <= k < i && self.list@[k] == highest;
            assert(0 <= k < self.cells().len() && self.cells()[k] == highest);
        }
        highest
    }

    /// An iterator over the cells, in index order.
    pub fn iter(&self) -> (r: Iter<'_>)
        ensures
            *r.heights_spec() == *self,
            r.index_spec() == 0,
    {
        Iter { heights: self, index: 0 }
    }
}

/// An iterator over the heights of a [`Heights`].
#[derive(Debug)]
pub struct Iter<'a> {
    heights: &'a Heights,
    index: usize,
}

/// One cell of a [`Heights`], as yielded by [`Iter`].
#[derive(Debug)]
pub struct IterItem<'a> {
    heights: &'a Heights,
    index: usize,
}

impl<'a> Iter<'a> {
    pub closed spec fn heights_spec(&self) -> &'a Heights {
        self.heights
    }

    pub closed spec fn index_spec(&self) -> nat {
        self.index as nat
    }

    /// The next cell, or `None` once every cell was yielded.
    pub fn next(&mut self) -> (r: Option<IterItem<'a>>)
        ensures
            final(self).heights_spec() == old(self).heights_spec(),
            old(self).index_spec() < old(self).heights_spec().cells().len() ==> {
                &&& r is Some
                &&& r->Some_0.heights_spec() == old(self).heights_spec()
                &&& r->Some_0.index_spec() == old(self).index_spec()
                &&& final(self).index_spec() == old(self).index_spec() + 1
            },
            old(self).index_spec() >= old(self).heights_spec().cells().len() ==> r is None
                && final(self).index_spec() == old(self).index_spec(),
    {
        if self.index >= self.heights.list.len() {
            return None;
        }
        let index = self.index;
        self.index = self.index + 1;
        Some(IterItem { heights: self.heights, index })
    }
}

impl<'a> IterItem<'a> {
    #[verifier::type_invariant]
    spec fn inv(self) -> bool {
        self.index < self.heights.list.len()
    }

    pub closed spec fn heights_spec(&self) -> &'a Heights {
        self.heights
    }

    pub closed spec fn index_spec(&self) -> nat {
        self.index as nat
    }

    /// The whole rectangle.
    pub fn heights(&self) -> (r: &'a Heights)
        ensures
            r == self.heights_spec(),
    {
        self.heights
    }

    /// The height of this cell.
    pub fn height(&self) -> (r: i32)
        ensures
            self.index_spec() < self.heights_spec().cells().len(),
            r == self.heights_spec().cells()[self.index_spec() as int],
    {
        proof {
            use_type_invariant(self);
        }
        self.heights.list[self.index]
    }

    /// The **offset** coordinate of this cell.
    pub fn position_offset(&self) -> (r: Coordinate2D)
        ensures
            r == self.heights_spec().size_spec().offset_of(self.index_spec() as int),
    {
        proof {
            use_type_invariant(self);
            use_type_invariant(self.heights);
        }
        self.heights.size.index_to_offset(self.index)
    }

    /// The **worldspace** coordinate of this cell.
    pub fn position_worldspace(&self) -> (r: Coordinate2D)
        ensures
            r == worldspace_of(
                self.heights_spec().origin_spec(),
                self.heights_spec().size_spec().offset_of(self.index_spec() as int),
            ),
    {
        proof {
            use_type_invariant(self);
            use_type_invariant(self.heights);
        }
        self.heights.size.index_to_offset(self.index).add(self.heights.origin)
    }
}

/// A height rectangle being decoded from a list response, one value at a time.
///
/// The response must be drained, by `next` or `collect`, before the
/// connection can carry another command.
#[derive(Debug)]
pub struct HeightsStream {
    response: ResponseStream,
    index: usize,
    origin: Coordinate2D,
    size: Size2D,
}

/// One decoded height with its position.
#[derive(Clone, Copy, Debug, PartialEq, Eq, Structural)]
pub struct HeightsStreamItem {
    pub height: i32,
    pub offset: Coordinate2D,
    pub worldspace: Coordinate2D,
}

impl View for HeightsStream {
    type V = Seq<u8>;

    /// The response bytes not decoded yet.
    closed spec fn view(&self) -> Seq<u8> {
        self.response@
    }
}

impl HeightsStream {
    #[verifier::type_invariant]
    spec fn inv(self) -> bool {
        &&& self.size.is_grid_extent()
        &&& self.size.fits_at(self.origin)
        &&& self.index <= self.size.area_spec()
    }

    /// Number of heights decoded so far.
    pub closed spec fn index_spec(&self) -> nat {
        self.index as nat
    }

    pub closed spec fn origin_spec(&self) -> Coordinate2D {
        self.origin
    }

    pub closed spec fn size_spec(&self) -> Size2D {
        self.size
    }

    /// Number of heights the response holds.
    pub open spec fn area_spec(&self) -> nat {
        self.size_spec().area_spec() as nat
    }

    /// A stream for the rectangle with corners `a` and `b`, in either order,
    /// whose height list `response` holds.
    pub fn new(a: Coordinate2D, b: Coordinate2D, response: ResponseStream) -> (r: Self)
        requires
            a.spans_with(b),
            a.size_between_spec(b).is_grid_extent(),
        ensures
            r@ == response@,
            r.index_spec() == 0,
            r.origin_spec() == a.min_spec(b),
            r.size_spec() == a.size_between_spec(b),
    {
        HeightsStream { response, index: 0, origin: a.min(b), size: a.size_between(b) }
    }

    /// Decode the next height, or return `None` once all were decoded.
    ///
    /// Every height but the last is closed by a comma, the last by a newline.
    pub fn next(&mut self) -> (r: Result<Option<HeightsStreamItem>, Error>)
        ensures
            final(self).origin_spec() == old(self).origin_spec(),
            final(self).size_spec() == old(self).size_spec(),
            old(self).index_spec() >= old(self).area_spec() ==> r == Ok::<
                Option<HeightsStreamItem>,
                Error,
            >(None) && final(self).index_spec() == old(self).index_spec() && final(self)@ == old(
                self,
            )@,
            old(self).index_spec() < old(self).area_spec() ==> {
                let i = old(self).index_spec();
                let offset = old(self).size_spec().offset_of(i as int);
                &&& final(self).index_spec() == i + 1
                &&& match height_item(old(self)@, i + 1 == old(self).area_spec()) {
                    Err(e) => r == Err::<Option<HeightsStreamItem>, Error>(e),
                    Ok((h, c)) => {
                        &&& r == Ok::<Option<HeightsStreamItem>, Error>(
                            Some(
                                HeightsStreamItem {
                                    height: h,
                                    offset,
                                    worldspace: worldspace_of(old(self).origin_spec(), offset),
                                },
                            ),
                        )
                        &&& final(self)@ == old(self)@.skip(c as int)
                    },
                }
            },
    {
        proof {
            use_type_invariant(&*self);
        }
        let area = self.size.area();
        if self.index >= area {
            return Ok(None);
        }
        let index = self.index;
        self.index = self.index + 1;
        let mut response = ResponseStream::new(BufReader::new());
        std::mem::swap(&mut response, &mut self.response);
        let height = if self.index >= area {
            response.final_i32()
        } else {
            response.next_i32()
        };
        std::mem::swap(&mut response, &mut self.response);
        match height {
            Err(e) => Err(e),
            Ok(height) => {
                let offset = self.size.index_to_offset(index);
                let worldspace = offset.add(self.origin);
                Ok(Some(HeightsStreamItem { height, offset, worldspace }))
            },
        }
    }

    /// Decode every height into a [`Heights`].
    ///
    /// Fails with `PartiallyConsumed` when `next` has already been called.
    pub fn collect(self) -> (r: Result<Heights, Error>)
        ensures
            self.index_spec() != 0 ==> r == Err::<Heights, Error>(Error::PartiallyConsumed),
            self.index_spec() == 0 ==> match height_list(self@, self.area_spec(), self.area_spec()) {
                Err(e) => r == Err::<Heights, Error>(e),
                Ok((items, _)) => {
                    &&& r is Ok
                    &&& r->Ok_0.cells() == items
                    &&& r->Ok_0.origin_spec() == self.origin_spec()
                    &&& r->Ok_0.size_spec() == self.size_spec()
                },
            },
    {
        proof {
            use_type_invariant(&self);
        }
        if self.index != 0 {
            return Err(Error::PartiallyConsumed);
        }
        let ghost s = self@;
        let ghost n = self.area_spec();
        let mut stream = self;
        let area = stream.size.area();
        let mut list: Vec<i32> = Vec::new();
        loop
            invariant
                self.index_spec() == 0,
                s == self@,
                stream.origin_spec() == self.origin_spec(),
                stream.size_spec() == self.size_spec(),
                n == stream.area_spec(),
                area == n,
                list.len() == stream.index_spec(),
                stream.index_spec() <= n,
                height_list(s, n, stream.index_spec()) is Ok,
                list@ == height_list(s, n, stream.index_spec())->Ok_0.0,
                stream@ == s.skip(height_list(s, n, stream.index_spec())->Ok_0.1 as int),
                height_list(s, n, stream.index_spec())->Ok_0.1 <= s.len(),
            ensures
                list.len() == n,
                list@ == height_list(s, n, n)->Ok_0.0,
                height_list(s, n, n) is Ok,
            decreases n - stream.index_spec(),
        {
            let ghost k = stream.index_spec();
            let ghost used = height_list(s, n, k)->Ok_0.1;
            match stream.next() {
                Err(e) => {
                    proof {
                        lemma_height_list_err(s, n, k + 1, n);
                    }
                    return Err(e);
                },
                Ok(None) => {
                    break ;
                },
                Ok(Some(item)) => {
                    list.push(item.height);
                    proof {
                        lemma_height_item_len(s.skip(used as int), k + 1 == n);
                        let c = height_item(s.skip(used as int), k + 1 == n)->Ok_0.1;
                        assert(s.skip(used as int).skip(c as int) =~= s.skip((used + c) as int));
                    }
                },
            }
        }
        proof {
            use_type_invariant(&stream);
        }
        Ok(Heights { list, origin: stream.origin, size: stream.size })
    }

    /// The origin: the corner with the smallest coordinates.
    pub fn origin(&self) -> (r: Coordinate2D)
        ensures
            r == self.origin_spec(),
    {
        self.origin
    }

    /// The 2D extent.
    pub fn size(&self) -> (r: Size2D)
        ensures
            r == self.size_spec(),
    {
        self.size
    }
}

impl HeightsStreamItem {
    /// The decoded height.
    pub fn height(&self) -> (r: i32)
        ensures
            r == self.height,
    {
        self.height
    }

    /// The **offset** coordinate of the column.
    pub fn position_offset(&self) -> (r: Coordinate2D)
        ensures
            r == self.offset,
    {
        self.offset
    }

    /// The **worldspace** coordinate of the column.
    pub fn position_worldspace(&self) -> (r: Coordinate2D)
        ensures
            r == self.worldspace,
    {
        self.worldspace
    }
}

/// Draining a fresh stream with `next` agrees with collecting it: once `j`
/// heights were taken, the next call decodes the `j`-th height of the
/// collected list, and its offset is the cell that holds that height.
pub proof fn lemma_drain_agrees_with_collect_2d(s: Seq<u8>, size: Size2D, j: nat)
    requires
        size.is_grid_extent(),
        height_list(s, size.area_spec() as nat, size.area_spec() as nat) is Ok,
        j < size.area_spec(),
    ensures
        ({
            let n = size.area_spec() as nat;
            let items = height_list(s, n, n)->Ok_0.0;
            let used = height_list(s, n, j)->Ok_0.1;
            let offset = size.offset_of(j as int);
            &&& height_list(s, n, j) is Ok
            &&& height_item(s.skip(used as int), j + 1 == n) is Ok
            &&& height_item(s.skip(used as int), j + 1 == n)->Ok_0.0 == items[j as int]
            &&& size.in_extent(offset.x as int, offset.z as int)
            &&& size.index_of(offset.x as int, offset.z as int) == j
        }),
{
    let n = size.area_spec() as nat;
    lemma_height_list_prefix(s, n, j + 1, n);
    lemma_height_list_prefix(s, n, j, n);
    lemma_index_round_trip_2d(size, j as int);
    let used = height_list(s, n, j)->Ok_0.1;
    assert(height_list(s, n, j + 1) == match height_item(s.skip(used as int), j + 1 == n) {
        Err(e) => Err(e),
        Ok((h, c)) => Ok((height_list(s, n, j)->Ok_0.0.push(h), used + c)),
    });
    assert(height_list(s, n, j + 1)->Ok_0.0[j as int] == height_list(s, n, n)->Ok_0.0[j as int]);
}

} // verus!
