//! Chunk-local voxel meshing with face culling.
//!
//! A `Chunk` holds a fixed-size three-dimensional grid of voxels, each with a
//! block type and visibility/transparency flags.  The mesher walks the grid,
//! decides for every voxel which of its six axis-aligned faces are externally
//! visible (not occluded by an opaque neighbor), and emits exactly the
//! geometry for those faces: vertex positions, unit normals, texture-atlas
//! coordinates and a triangle index list.
//!
//! All geometry is kept on an integer lattice.  Vertex positions are measured
//! in half-voxel units (a unit cube centered on lattice point `p` has its
//! corners at `2*p - 1` and `2*p + 1` in each axis), and texture coordinates
//! in atlas-cell units, so that the whole pipeline is exact integer
//! arithmetic; a renderer divides by two (and by the atlas grid size) when it
//! uploads the buffers.

use vstd::prelude::*;

pub mod block_registry;
pub mod block_types;
pub mod chunk_manager;
pub mod mesher;
pub mod proofs;

pub use block_registry::AtlasCell;
pub use block_registry::BlockRegistry;
pub use block_registry::MaterialDescriptor;
pub use block_types::BlockType;
pub use chunk_manager::Block;
pub use chunk_manager::Chunk;
pub use chunk_manager::ChunkManager;
pub use chunk_manager::Position;
pub use mesher::mesh_chunk;
pub use mesher::visible_sides;
pub use mesher::Mesh;
pub use mesher::Side;
pub use mesher::Vec2i;
pub use mesher::Vec3i;

verus! {

/// The error kinds of the library.
///
/// An empty chunk is not an error: meshing it yields a valid empty mesh.
#[derive(Clone, Copy, PartialEq, Eq, Structural, Debug)]
pub enum VoxelError {
    /// A grid access lay outside the chunk extent.
    OutOfBounds,
    /// A block type had no entry in the material registry.
    UnknownBlockType,
    /// Meshing encountered a block type it cannot emit geometry for.
    InvalidBlockType,
}

} // verus!
