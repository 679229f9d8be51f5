//! The block-type → material mapping the mesher consults for texture-atlas
//! cells.

use vstd::prelude::*;

use crate::block_types::BlockType;
use crate::VoxelError;

verus! {

/// A cell of the texture atlas, addressed by column and row on the atlas
/// grid.  Texture coordinates are emitted in cell units: the quad of cell
/// `(x, y)` spans `[x, x + 1] × [y, y + 1]`.
#[derive(Clone, Copy, PartialEq, Eq, Structural, Debug)]
pub struct AtlasCell {
    pub x: u32,
    pub y: u32,
}

/// The visual attributes of one block type: the atlas cell of each of its
/// six faces, and whether the block fully occludes its neighbors.
#[derive(Clone, Copy, PartialEq, Eq, Structural, Debug)]
pub struct MaterialDescriptor {
    pub top: AtlasCell,
    pub bottom: AtlasCell,
    pub forward: AtlasCell,
    pub back: AtlasCell,
    pub left: AtlasCell,
    pub right: AtlasCell,
    pub is_opaque: bool,
}

impl MaterialDescriptor {
    /// The descriptor `uniform` builds.
    pub open spec fn uniform_spec(cell: AtlasCell, is_opaque: bool) -> MaterialDescriptor {
        MaterialDescriptor {
            top: cell,
            bottom: cell,
            forward: cell,
            back: cell,
            left: cell,
            right: cell,
            is_opaque,
        }
    }

    /// A descriptor whose six faces all use the same atlas cell.
    pub fn uniform(cell: AtlasCell, is_opaque: bool) -> (r: Self)
        ensures
            r == (MaterialDescriptor {
                top: cell,
                bottom: cell,
                forward: cell,
                back: cell,
                left: cell,
                right: cell,
                is_opaque,
            }),
    {
        MaterialDescriptor {
            top: cell,
            bottom: cell,
            forward: cell,
            back: cell,
            left: cell,
            right: cell,
            is_opaque,
        }
    }
}

/// The material table: one descriptor per registered block type, indexed by
/// `BlockType::id`.  Looking up an unregistered type is an error.
pub struct BlockRegistry {
    materials: Vec<MaterialDescriptor>,
}

impl BlockRegistry {
    /// The registered material table.
    pub closed spec fn materials_spec(self) -> Seq<MaterialDescriptor> {
        self.materials@
    }

    /// Whether `t` has an entry in the table.
    pub open spec fn registered(self, t: BlockType) -> bool {
        t.id_spec() < self.materials_spec().len()
    }

    /// An empty registry: no block type registered.
    pub fn new() -> (r: Self)
        ensures
            r.materials_spec() == Seq::<MaterialDescriptor>::empty(),
    {
        let r = BlockRegistry { materials: Vec::new() };
        proof {
            assert(r.materials@ =~= Seq::<MaterialDescriptor>::empty());
        }
        r
    }

    /// Append the descriptor of the next block type in `id` order.
    pub fn register(&mut self, m: MaterialDescriptor)
        ensures
            final(self).materials_spec() == old(self).materials_spec().push(m),
    {
        self.materials.push(m);
    }

    /// The material of `t`, or `UnknownBlockType` when `t` has no entry.
    pub fn lookup(&self, t: BlockType) -> (r: Result<MaterialDescriptor, VoxelError>)
        ensures
            r is Ok <==> self.registered(t),
            r is Ok ==> r == Result::<MaterialDescriptor, VoxelError>::Ok(
                self.materials_spec()[t.id_spec()],
            ),
            r is Err ==> r == Result::<MaterialDescriptor, VoxelError>::Err(
                VoxelError::UnknownBlockType,
            ),
    {
        let id = t.id() as usize;
        if id < self.materials.len() {
            Ok(self.materials[id])
        } else {
            Err(VoxelError::UnknownBlockType)
        }
    }

    /// The registry of the standard world: `Empty` (a blank, non-occluding
    /// entry so that the table is indexed by `BlockType::id`), then `Dirt`
    /// and `Stone`, both opaque and textured from one atlas cell.
    pub fn standard() -> (r: Self)
        ensures
            r.materials_spec().len() == 3,
            r.registered(BlockType::Empty),
            r.registered(BlockType::Dirt),
            r.registered(BlockType::Stone),
            r.materials_spec()[BlockType::Empty.id_spec()] == MaterialDescriptor::uniform_spec(
                AtlasCell { x: 0, y: 0 },
                false,
            ),
            r.materials_spec()[BlockType::Dirt.id_spec()] == MaterialDescriptor::uniform_spec(
                AtlasCell { x: 1, y: 28 },
                true,
            ),
            r.materials_spec()[BlockType::Stone.id_spec()] == MaterialDescriptor::uniform_spec(
                AtlasCell { x: 1, y: 28 },
                true,
            ),
    {
        let mut r = BlockRegistry { materials: Vec::new() };
        r.register(MaterialDescriptor::uniform(AtlasCell { x: 0, y: 0 }, false));
        r.register(MaterialDescriptor::uniform(AtlasCell { x: 1, y: 28 }, true));
        r.register(MaterialDescriptor::uniform(AtlasCell { x: 1, y: 28 }, true));
        r
    }
}

} // verus!
