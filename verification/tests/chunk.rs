//! Tests of the voxel grid: positions, blocks, chunks and the chunk store.

use voxel_mesher::{Block, BlockType, Chunk, ChunkManager, Position, VoxelError};

#[test]
fn position_new_fields() {
    let p = Position::new(1, -2, 3);
    assert_eq!(p.x, 1);
    assert_eq!(p.y, -2);
    assert_eq!(p.z, 3);
    assert_eq!(p, Position { x: 1, y: -2, z: 3 });
}

#[test]
fn block_new_fields() {
    let b = Block::new(BlockType::Dirt, true, false);
    assert_eq!(b.block_type, BlockType::Dirt);
    assert!(b.is_visible);
    assert!(!b.is_transparent);
    assert_eq!(b.local_position, Position::new(0, 0, 0));
    assert_eq!(b.absolute_position, Position::new(0, 0, 0));
}

#[test]
fn chunk_dimensions_and_origin() {
    let c = Chunk::new(Position::new(16, 0, -16), 16, 256, 16);
    assert_eq!(c.dimensions(), (16, 256, 16));
    assert_eq!(c.origin(), Position::new(16, 0, -16));
}

#[test]
fn fresh_chunk_has_no_voxels() {
    let c = Chunk::new(Position::new(0, 0, 0), 2, 2, 2);
    assert!(c.get(Position::new(0, 0, 0)).is_none());
    assert!(c.get(Position::new(1, 1, 1)).is_none());
    assert!(c.get(Position::new(-1, 0, 0)).is_none());
    assert!(c.get(Position::new(2, 0, 0)).is_none());
}

#[test]
fn set_and_get_roundtrip() {
    let mut c = Chunk::new(Position::new(10, 20, 30), 4, 4, 4);
    let r = c.set(Position::new(1, 2, 3), Block::new(BlockType::Stone, true, false));
    assert!(r.is_ok());
    let b = c.get(Position::new(1, 2, 3)).unwrap();
    assert_eq!(b.block_type, BlockType::Stone);
    assert!(b.is_visible);
    assert!(!b.is_transparent);
    assert_eq!(b.local_position, Position::new(1, 2, 3));
    assert_eq!(b.absolute_position, Position::new(11, 22, 33));
    // the neighboring cells are untouched
    assert!(c.get(Position::new(1, 2, 2)).is_none());
    assert!(c.get(Position::new(0, 2, 3)).is_none());
}

#[test]
fn set_normalizes_position_fields() {
    let mut c = Chunk::new(Position::new(0, 0, 0), 2, 2, 2);
    let stray = Block {
        local_position: Position::new(7, 7, 7),
        absolute_position: Position::new(-9, -9, -9),
        is_visible: true,
        block_type: BlockType::Dirt,
        is_transparent: false,
    };
    c.set(Position::new(1, 0, 1), stray).unwrap();
    let b = c.get(Position::new(1, 0, 1)).unwrap();
    assert_eq!(b.local_position, Position::new(1, 0, 1));
    assert_eq!(b.absolute_position, Position::new(1, 0, 1));
}

#[test]
fn set_out_of_bounds_rejected() {
    let mut c = Chunk::new(Position::new(0, 0, 0), 2, 2, 2);
    let b = Block::new(BlockType::Dirt, true, false);
    assert_eq!(c.set(Position::new(2, 0, 0), b), Err(VoxelError::OutOfBounds));
    assert_eq!(c.set(Position::new(0, -1, 0), b), Err(VoxelError::OutOfBounds));
    assert_eq!(c.set(Position::new(0, 0, 5), b), Err(VoxelError::OutOfBounds));
    // nothing was stored
    assert!(c.get(Position::new(0, 0, 0)).is_none());
    assert!(c.get(Position::new(1, 1, 1)).is_none());
}

#[test]
fn filled_chunk_all_cells() {
    let c = Chunk::filled(Position::new(0, 64, 0), 2, 3, 2, BlockType::Dirt, true, false);
    for x in 0..2 {
        for y in 0..3 {
            for z in 0..2 {
                let b = c.get(Position::new(x, y, z)).unwrap();
                assert_eq!(b.block_type, BlockType::Dirt);
                assert!(b.is_visible);
                assert!(!b.is_transparent);
                assert_eq!(b.local_position, Position::new(x, y, z));
                assert_eq!(b.absolute_position, Position::new(x, 64 + y, z));
            }
        }
    }
}

#[test]
fn chunk_manager_insert_and_get() {
    let mut m = ChunkManager::new();
    assert_eq!(m.len(), 0);
    m.insert_chunk(Chunk::new(Position::new(0, 0, 0), 2, 2, 2));
    m.insert_chunk(Chunk::new(Position::new(16, 0, 0), 4, 4, 4));
    assert_eq!(m.len(), 2);
    let c = m.get_chunk(Position::new(16, 0, 0)).unwrap();
    assert_eq!(c.dimensions(), (4, 4, 4));
    assert!(m.get_chunk(Position::new(32, 0, 0)).is_none());
}

#[test]
fn chunk_manager_replaces_same_origin() {
    let mut m = ChunkManager::new();
    m.insert_chunk(Chunk::new(Position::new(0, 0, 0), 2, 2, 2));
    m.insert_chunk(Chunk::new(Position::new(0, 0, 0), 8, 8, 8));
    assert_eq!(m.len(), 1);
    let c = m.get_chunk(Position::new(0, 0, 0)).unwrap();
    assert_eq!(c.dimensions(), (8, 8, 8));
}
