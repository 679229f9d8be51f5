//! The finite enumeration of block types.

use vstd::prelude::*;

verus! {

/// The kind of content a voxel cell carries.  `Empty` is the sentinel for "no
/// geometry, not occluding": an `Empty` voxel never contributes faces of its
/// own, though it may still sit in the grid and be examined as a neighbor.
#[derive(Clone, Copy, PartialEq, Eq, Structural, Hash, Debug)]
pub enum BlockType {
    Empty,
    Dirt,
    Stone,
}

impl BlockType {
    /// The numeric identifier of this block type, the index into a
    /// `BlockRegistry`'s material table.  `Empty` is 0.
    pub open spec fn id_spec(self) -> int {
        match self {
            BlockType::Empty => 0,
            BlockType::Dirt => 1,
            BlockType::Stone => 2,
        }
    }

    /// The numeric identifier of this block type.
    pub fn id(self) -> (r: u16)
        ensures
            r as int == self.id_spec(),
    {
        match self {
            BlockType::Empty => 0,
            BlockType::Dirt => 1,
            BlockType::Stone => 2,
        }
    }

    /// Whether this is the `Empty` sentinel.
    pub fn is_empty(self) -> (r: bool)
        ensures
            r == (self == BlockType::Empty),
    {
        match self {
            BlockType::Empty => true,
            _ => false,
        }
    }
}

} // verus!
