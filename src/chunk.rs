//! A cuboid of blocks, and the stream that decodes one from a response.
use vstd::prelude::*;

use crate::block::Block;
use crate::coordinate::Coordinate;
use crate::error::{Error, OutOfBoundsError};
use crate::response::{BufReader, ResponseStream};
use crate::size::{lemma_index_round_trip, Size};
use crate::wire::{
    block_item, block_list, lemma_block_item_len, lemma_block_list_err, lemma_block_list_prefix,
};

verus! {

/// The worldspace coordinate of an offset inside a grid placed at `origin`.
pub open spec fn worldspace_of(origin: Coordinate, offset: Coordinate) -> Coordinate {
    Coordinate {
        x: (origin.x + offset.x) as i32,
        y: (origin.y + offset.y) as i32,
        z: (origin.z + offset.z) as i32,
    }
}

/// A 3D cuboid of [`Block`]s, kept with the location it was gathered from.
///
/// Cells are stored with `z` varying fastest, then `x`, then `y`.
#[derive(Debug)]
pub struct Chunk {
    list: Vec<Block>,
    origin: Coordinate,
    size: Size,
}

impl Chunk {
    #[verifier::type_invariant]
    spec fn inv(self) -> bool {
        &&& self.size.is_grid_extent()
        &&& self.size.fits_at(self.origin)
        &&& self.list.len() == self.size.volume_spec()
    }

    /// The blocks, in index order.
    pub closed spec fn cells(&self) -> Seq<Block> {
        self.list@
    }

    pub closed spec fn origin_spec(&self) -> Coordinate {
        self.origin
    }

    pub closed spec fn size_spec(&self) -> Size {
        self.size
    }

    /// The block at the **offset** coordinate.
    pub fn get_offset(&self, coordinate: Coordinate) -> (r: Result<Block, OutOfBoundsError>)
        ensures
            self.size_spec().in_extent(coordinate.x as int, coordinate.y as int, coordinate.z as int)
                ==> r == Ok::<Block, OutOfBoundsError>(
                self.cells()[self.size_spec().index_of(
                    coordinate.x as int,
                    coordinate.y as int,
                    coordinate.z as int,
                )],
            ),
            !self.size_spec().in_extent(coordinate.x as int, coordinate.y as int, coordinate.z as int)
                ==> r == Err::<Block, OutOfBoundsError>(OutOfBoundsError),
    {
        proof {
            use_type_invariant(self);
        }
        if !self.size.contains(coordinate) {
            return Err(OutOfBoundsError);
        }
        let index = self.size.offset_to_index(coordinate);
        Ok(self.list[index])
    }

    /// The block at the **worldspace** coordinate.
    pub fn get_worldspace(&self, coordinate: Coordinate) -> (r: Result<Block, OutOfBoundsError>)
        ensures
            ({
                let o = self.origin_spec();
                let (dx, dy, dz) = (coordinate.x - o.x, coordinate.y - o.y, coordinate.z - o.z);
                &&& self.size_spec().in_extent(dx, dy, dz) ==> r == Ok::<Block, OutOfBoundsError>(
                    self.cells()[self.size_spec().index_of(dx, dy, dz)],
                )
                &&& !self.size_spec().in_extent(dx, dy, dz) ==> r == Err::<Block, OutOfBoundsError>(
                    OutOfBoundsError,
                )
            }),
    {
        proof {
            use_type_invariant(self);
        }
        let dx = coordinate.x as i64 - self.origin.x as i64;
        let dy = coordinate.y as i64 - self.origin.y as i64;
        let dz = coordinate.z as i64 - self.origin.z as i64;
        if dx < 0 || dx >= self.size.x as i64 || dy < 0 || dy >= self.size.y as i64 || dz < 0 || dz
            >= self.size.z as i64 {
            return Err(OutOfBoundsError);
        }
        self.get_offset(coordinate.sub(self.origin))
    }

    /// The origin: the corner with the smallest coordinates.
    pub fn origin(&self) -> (r: Coordinate)
        ensures
            r == self.origin_spec(),
    {
        self.origin
    }

    /// The 3D extent.
    pub fn size(&self) -> (r: Size)
        ensures
            r == self.size_spec(),
            r.is_grid_extent(),
            self.cells().len() == r.volume_spec(),
    {
        proof {
            use_type_invariant(self);
        }
        self.size
    }

    /// An iterator over the cells, in index order.
    pub fn iter(&self) -> (r: Iter<'_>)
        ensures
            *r.chunk_spec() == *self,
            r.index_spec() == 0,
    {
        Iter { chunk: self, index: 0 }
    }
}

/// An iterator over the blocks of a [`Chunk`].
#[derive(Debug)]
pub struct Iter<'a> {
    chunk: &'a Chunk,
    index: usize,
}

/// One cell of a [`Chunk`], as yielded by [`Iter`].
#[derive(Debug)]
pub struct IterItem<'a> {
    chunk: &'a Chunk,
    index: usize,
}

impl<'a> Iter<'a> {
    pub closed spec fn chunk_spec(&self) -> &'a Chunk {
        self.chunk
    }

    pub closed spec fn index_spec(&self) -> nat {
        self.index as nat
    }

    /// The next cell, or `None` once every cell was yielded.
    pub fn next(&mut self) -> (r: Option<IterItem<'a>>)
        ensures
            final(self).chunk_spec() == old(self).chunk_spec(),
            old(self).index_spec() < old(self).chunk_spec().cells().len() ==> {
                &&& r is Some
                &&& r->Some_0.chunk_spec() == old(self).chunk_spec()
                &&& r->Some_0.index_spec() == old(self).index_spec()
                &&& final(self).index_spec() == old(self).index_spec() + 1
            },
            old(self).index_spec() >= old(self).chunk_spec().cells().len() ==> r is None
                && final(self).index_spec() == old(self).index_spec(),
    {
        if self.index >= self.chunk.list.len() {
            return None;
        }
        let index = self.index;
        self.index = self.index + 1;
        Some(IterItem { chunk: self.chunk, index })
    }
}

impl<'a> IterItem<'a> {
    #[verifier::type_invariant]
    spec fn inv(self) -> bool {
        self.index < self.chunk.list.len()
    }

    pub closed spec fn chunk_spec(&self) -> &'a Chunk {
        self.chunk
    }

    pub closed spec fn index_spec(&self) -> nat {
        self.index as nat
    }

    /// The whole chunk.
    pub fn chunk(&self) -> (r: &'a Chunk)
        ensures
            r == self.chunk_spec(),
    {
        self.chunk
    }

    /// The block of this cell.
    pub fn block(&self) -> (r: Block)
        ensures
            self.index_spec() < self.chunk_spec().cells().len(),
            r == self.chunk_spec().cells()[self.index_spec() as int],
    {
        proof {
            use_type_invariant(self);
        }
        self.chunk.list[self.index]
    }

    /// The **offset** coordinate of this cell.
    pub fn position_offset(&self) -> (r: Coordinate)
        ensures
            r == self.chunk_spec().size_spec().offset_of(self.index_spec() as int),
    {
        proof {
            use_type_invariant(self);
            use_type_invariant(self.chunk);
        }
        self.chunk.size.index_to_offset(self.index)
    }

    /// The **worldspace** coordinate of this cell.
    pub fn position_worldspace(&self) -> (r: Coordinate)
        ensures
            r == worldspace_of(
                self.chunk_spec().origin_spec(),
                self.chunk_spec().size_spec().offset_of(self.index_spec() as int),
            ),
    {
        proof {
            use_type_invariant(self);
            use_type_invariant(self.chunk);
        }
        self.chunk.size.index_to_offset(self.index).add(self.chunk.origin)
    }
}

/// A chunk being decoded from a block-list response, one block at a time.
///
/// The response must be drained, by `next` or `collect`, before the
/// connection can carry another command.
#[derive(Debug)]
pub struct ChunkStream {
    response: ResponseStream,
    index: usize,
    origin: Coordinate,
    size: Size,
}

/// One decoded block with its position.
#[derive(Clone, Copy, Debug, PartialEq, Eq, Structural)]
pub struct ChunkStreamItem {
    pub block: Block,
    pub offset: Coordinate,
    pub worldspace: Coordinate,
}

impl View for ChunkStream {
    type V = Seq<u8>;

    /// The response bytes not decoded yet.
    closed spec fn view(&self) -> Seq<u8> {
        self.response@
    }
}

impl ChunkStream {
    #[verifier::type_invariant]
    spec fn inv(self) -> bool {
        &&& self.size.is_grid_extent()
        &&& self.size.fits_at(self.origin)
        &&& self.index <= self.size.volume_spec()
    }

    /// Number of blocks decoded so far.
    pub closed spec fn index_spec(&self) -> nat {
        self.index as nat
    }

    pub closed spec fn origin_spec(&self) -> Coordinate {
        self.origin
    }

    pub closed spec fn size_spec(&self) -> Size {
        self.size
    }

    /// Number of blocks the response holds.
    pub open spec fn volume_spec(&self) -> nat {
        self.size_spec().volume_spec() as nat
    }

    /// A stream for the cuboid with corners `a` and `b`, in either order,
    /// whose block list `response` holds.
    pub fn new(a: Coordinate, b: Coordinate, response: ResponseStream) -> (r: Self)
        requires
            a.spans_with(b),
            a.size_between_spec(b).is_grid_extent(),
        ensures
            r@ == response@,
            r.index_spec() == 0,
            r.origin_spec() == a.min_spec(b),
            r.size_spec() == a.size_between_spec(b),
    {
        ChunkStream { response, index: 0, origin: a.min(b), size: a.size_between(b) }
    }

    /// Decode the next block, or return `None` once all were decoded.
    ///
    /// Every block but the last is closed by a semicolon, the last by a newline.
    pub fn next(&mut self) -> (r: Result<Option<ChunkStreamItem>, Error>)
        ensures
            final(self).origin_spec() == old(self).origin_spec(),
            final(self).size_spec() == old(self).size_spec(),
            old(self).index_spec() >= old(self).volume_spec() ==> r == Ok::<
                Option<ChunkStreamItem>,
                Error,
            >(None) && final(self).index_spec() == old(self).index_spec() && final(self)@ == old(
                self,
            )@,
            old(self).index_spec() < old(self).volume_spec() ==> {
                let i = old(self).index_spec();
                let offset = old(self).size_spec().offset_of(i as int);
                &&& final(self).index_spec() == i + 1
                &&& match block_item(old(self)@, i + 1 == old(self).volume_spec()) {
                    Err(e) => r == Err::<Option<ChunkStreamItem>, Error>(e),
                    Ok((b, c)) => {
                        &&& r == Ok::<Option<ChunkStreamItem>, Error>(
                            Some(
                                ChunkStreamItem {
                                    block: b,
                                    offset,
                                    worldspace: worldspace_of(old(self).origin_spec(), offset),
                                },
                            ),
                        )
                        &&& final(self)@ == old(self)@.skip(c as int)
                    },
                }
            },
    {
        proof {
            use_type_invariant(&*self);
        }
        let volume = self.size.volume();
        if self.index >= volume {
            return Ok(None);
        }
        let index = self.index;
        self.index = self.index + 1;
        let mut response = ResponseStream::new(BufReader::new());
        std::mem::swap(&mut response, &mut self.response);
        let block = if self.index >= volume {
            response.final_block()
        } else {
            response.next_block()
        };
        std::mem::swap(&mut response, &mut self.response);
        match block {
            Err(e) => Err(e),
            Ok(block) => {
                let offset = self.size.index_to_offset(index);
                let worldspace = offset.add(self.origin);
                Ok(Some(ChunkStreamItem { block, offset, worldspace }))
            },
        }
    }

    /// Decode every block into a [`Chunk`].
    ///
    /// Fails with `PartiallyConsumed` when `next` has already been called.
    pub fn collect(self) -> (r: Result<Chunk, Error>)
        ensures
            self.index_spec() != 0 ==> r == Err::<Chunk, Error>(Error::PartiallyConsumed),
            self.index_spec() == 0 ==> match block_list(self@, self.volume_spec(), self.volume_spec()) {
                Err(e) => r == Err::<Chunk, Error>(e),
                Ok((items, _)) => {
                    &&& r is Ok
                    &&& r->Ok_0.cells() == items
                    &&& r->Ok_0.origin_spec() == self.origin_spec()
                    &&& r->Ok_0.size_spec() == self.size_spec()
                },
            },
    {
        proof {
            use_type_invariant(&self);
        }
        if self.index != 0 {
            return Err(Error::PartiallyConsumed);
        }
        let ghost s = self@;
        let ghost n = self.volume_spec();
        let mut stream = self;
        let volume = stream.size.volume();
        let mut list: Vec<Block> = Vec::new();
        loop
            invariant
                self.index_spec() == 0,
                s == self@,
                stream.origin_spec() == self.origin_spec(),
                stream.size_spec() == self.size_spec(),
                n == stream.volume_spec(),
                volume == n,
                list.len() == stream.index_spec(),
                stream.index_spec() <= n,
                block_list(s, n, stream.index_spec()) is Ok,
                list@ == block_list(s, n, stream.index_spec())->Ok_0.0,
                stream@ == s.skip(block_list(s, n, stream.index_spec())->Ok_0.1 as int),
                block_list(s, n, stream.index_spec())->Ok_0.1 <= s.len(),
            ensures
                list.len() == n,
                list@ == block_list(s, n, n)->Ok_0.0,
                block_list(s, n, n) is Ok,
            decreases n - stream.index_spec(),
        {
            let ghost k = stream.index_spec();
            let ghost used = block_list(s, n, k)->Ok_0.1;
            match stream.next() {
                Err(e) => {
                    proof {
                        lemma_block_list_err(s, n, k + 1, n);
                    }
                    return Err(e);
                },
                Ok(None) => {
                    break ;
                },
                Ok(Some(item)) => {
                    list.push(item.block);
                    proof {
                        lemma_block_item_len(s.skip(used as int), k + 1 == n);
                        let c = block_item(s.skip(used as int), k + 1 == n)->Ok_0.1;
                        assert(s.skip(used as int).skip(c as int) =~= s.skip((used + c) as int));
                    }
                },
            }
        }
        proof {
            use_type_invariant(&stream);
        }
        Ok(Chunk { list, origin: stream.origin, size: stream.size })
    }

    /// The origin: the corner with the smallest coordinates.
    pub fn origin(&self) -> (r: Coordinate)
        ensures
            r == self.origin_spec(),
    {
        self.origin
    }

    /// The 3D extent.
    pub fn size(&self) -> (r: Size)
        ensures
            r == self.size_spec(),
    {
        self.size
    }
}

impl ChunkStreamItem {
    /// The decoded block.
    pub fn block(&self) -> (r: Block)
        ensures
            r == self.block,
    {
        self.block
    }

    /// The **offset** coordinate of the block.
    pub fn position_offset(&self) -> (r: Coordinate)
        ensures
            r == self.offset,
    {
        self.offset
    }

    /// The **worldspace** coordinate of the block.
    pub fn position_worldspace(&self) -> (r: Coordinate)
        ensures
            r == self.worldspace,
    {
        self.worldspace
    }
}

/// Draining a fresh stream with `next` agrees with collecting it: once `j`
/// blocks were taken, the next call decodes the `j`-th block of the collected
/// list, and its offset is the cell of the chunk that holds that block.
pub proof fn lemma_drain_agrees_with_collect(s: Seq<u8>, size: Size, j: nat)
    requires
        size.is_grid_extent(),
        block_list(s, size.volume_spec() as nat, size.volume_spec() as nat) is Ok,
        j < size.volume_spec(),
    ensures
        ({
            let n = size.volume_spec() as nat;
            let items = block_list(s, n, n)->Ok_0.0;
            let used = block_list(s, n, j)->Ok_0.1;
            let offset = size.offset_of(j as int);
            &&& block_list(s, n, j) is Ok
            &&& block_item(s.skip(used as int), j + 1 == n) is Ok
            &&& block_item(s.skip(used as int), j + 1 == n)->Ok_0.0 == items[j as int]
            &&& size.in_extent(offset.x as int, offset.y as int, offset.z as int)
            &&& size.index_of(offset.x as int, offset.y as int, offset.z as int) == j
        }),
{
    let n = size.volume_spec() as nat;
    lemma_block_list_prefix(s, n, j + 1, n);
    lemma_block_list_prefix(s, n, j, n);
    lemma_index_round_trip(size, j as int);
    let used = block_list(s, n, j)->Ok_0.1;
    assert(block_list(s, n, j + 1) == match block_item(s.skip(used as int), j + 1 == n) {
        Err(e) => Err(e),
        Ok((b, c)) => Ok((block_list(s, n, j)->Ok_0.0.push(b), used + c)),
    });
    assert(block_list(s, n, j + 1)->Ok_0.0[j as int] == block_list(s, n, n)->Ok_0.0[j as int]);
}

} // verus!
