use vstd::prelude::*;

verus! {

/// A voxel type: its `id` and its sub-type `modifier`.
#[derive(Clone, Copy, Debug, PartialEq, Eq, Structural)]
pub struct Block {
    /// Block identifier.
    pub id: u32,
    /// Block modifier (sub-type).
    pub modifier: u32,
}

impl Block {
    /// Create a new `Block`.
    pub fn new(id: u32, modifier: u32) -> (r: Self)
        ensures
            r.id == id,
            r.modifier == modifier,
    {
        Block { id, modifier }
    }
}

} // verus!
