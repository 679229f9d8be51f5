//! Tests of the face-culling mesher: face counts, geometry, culling,
//! transparency, winding and error behavior.

use voxel_mesher::{
    mesh_chunk, visible_sides, AtlasCell, Block, BlockRegistry, BlockType, Chunk,
    MaterialDescriptor, Position, Side, Vec2i, Vec3i, VoxelError,
};

fn stone() -> Block {
    Block::new(BlockType::Stone, true, false)
}

#[test]
fn single_voxel_in_small_chunk() {
    // chunk 2x2x2, Stone at (0,0,0), all others absent: all six faces emitted
    let mut c = Chunk::new(Position::new(0, 0, 0), 2, 2, 2);
    c.set(Position::new(0, 0, 0), stone()).unwrap();
    let m = mesh_chunk(&c, &BlockRegistry::standard()).unwrap();
    assert_eq!(m.positions.len(), 24);
    assert_eq!(m.normals.len(), 24);
    assert_eq!(m.uvs.len(), 24);
    assert_eq!(m.indices.len(), 36);
    assert_eq!(m.vertex_count(), 24);
    assert_eq!(m.index_count(), 36);
}

#[test]
fn two_adjacent_stones_cull_shared_faces() {
    // chunk 2x1x1, Stone at (0,0,0) and (1,0,0): each voxel contributes 5
    // faces, the two between them are culled: 10 faces, not 12
    let mut c = Chunk::new(Position::new(0, 0, 0), 2, 1, 1);
    c.set(Position::new(0, 0, 0), stone()).unwrap();
    c.set(Position::new(1, 0, 0), stone()).unwrap();
    let m = mesh_chunk(&c, &BlockRegistry::standard()).unwrap();
    assert_eq!(m.positions.len(), 40);
    assert_eq!(m.indices.len(), 60);
}

#[test]
fn empty_chunk_meshes_to_nothing() {
    let c = Chunk::new(Position::new(0, 0, 0), 4, 4, 4);
    let m = mesh_chunk(&c, &BlockRegistry::standard()).unwrap();
    assert_eq!(m.positions.len(), 0);
    assert_eq!(m.normals.len(), 0);
    assert_eq!(m.uvs.len(), 0);
    assert_eq!(m.indices.len(), 0);
}

#[test]
fn explicit_empty_voxels_mesh_to_nothing() {
    let c = Chunk::filled(Position::new(0, 0, 0), 3, 3, 3, BlockType::Empty, true, false);
    let m = mesh_chunk(&c, &BlockRegistry::standard()).unwrap();
    assert_eq!(m.positions.len(), 0);
    assert_eq!(m.indices.len(), 0);
}

#[test]
fn solid_chunk_emits_boundary_faces_only() {
    // fully solid 3x4x5 chunk: exactly 2*(w*h + h*d + d*w) faces
    let c = Chunk::filled(Position::new(0, 0, 0), 3, 4, 5, BlockType::Dirt, true, false);
    let m = mesh_chunk(&c, &BlockRegistry::standard()).unwrap();
    let faces = 2 * (3 * 4 + 4 * 5 + 5 * 3);
    assert_eq!(m.positions.len(), 4 * faces);
    assert_eq!(m.indices.len(), 6 * faces);
}

#[test]
fn full_world_chunk_boundary_faces() {
    // the generated world chunk: 16x256x16, all Dirt
    let c = Chunk::filled(Position::new(0, 0, 0), 16, 256, 16, BlockType::Dirt, true, false);
    let m = mesh_chunk(&c, &BlockRegistry::standard()).unwrap();
    let faces = 2 * (16 * 256 + 256 * 16 + 16 * 16);
    assert_eq!(faces, 16896);
    assert_eq!(m.positions.len(), 4 * faces);
    assert_eq!(m.indices.len(), 6 * faces);
}

#[test]
fn transparent_neighbor_does_not_occlude() {
    // Stone next to a present-but-transparent Stone: the shared face is
    // emitted; the transparent voxel itself meshes and has its face toward
    // the opaque one culled: 6 + 5 = 11 faces
    let mut c = Chunk::new(Position::new(0, 0, 0), 2, 1, 1);
    c.set(Position::new(0, 0, 0), stone()).unwrap();
    c.set(Position::new(1, 0, 0), Block::new(BlockType::Stone, true, true)).unwrap();
    let m = mesh_chunk(&c, &BlockRegistry::standard()).unwrap();
    assert_eq!(m.positions.len(), 44);
    assert_eq!(m.indices.len(), 66);
}

#[test]
fn hidden_voxel_emits_nothing_but_still_occludes() {
    // a non-visible opaque voxel contributes no faces of its own, but its
    // opacity still culls the neighbor's shared face
    let mut c = Chunk::new(Position::new(0, 0, 0), 2, 1, 1);
    c.set(Position::new(0, 0, 0), Block::new(BlockType::Stone, false, false)).unwrap();
    c.set(Position::new(1, 0, 0), stone()).unwrap();
    let m = mesh_chunk(&c, &BlockRegistry::standard()).unwrap();
    assert_eq!(m.positions.len(), 20);
    assert_eq!(m.indices.len(), 30);
}

#[test]
fn indices_form_ccw_triangles_below_vertex_count() {
    let mut c = Chunk::new(Position::new(-3, 7, 2), 2, 2, 2);
    c.set(Position::new(0, 0, 0), stone()).unwrap();
    c.set(Position::new(1, 1, 1), Block::new(BlockType::Dirt, true, false)).unwrap();
    let m = mesh_chunk(&c, &BlockRegistry::standard()).unwrap();
    assert_eq!(m.positions.len(), m.normals.len());
    assert_eq!(m.positions.len(), m.uvs.len());
    assert_eq!(m.indices.len() % 3, 0);
    for &i in &m.indices {
        assert!((i as usize) < m.positions.len());
    }
    for t in 0..m.indices.len() / 3 {
        let p0 = m.positions[m.indices[3 * t] as usize];
        let p1 = m.positions[m.indices[3 * t + 1] as usize];
        let p2 = m.positions[m.indices[3 * t + 2] as usize];
        let n = m.normals[m.indices[3 * t] as usize];
        let a = (p1.x - p0.x, p1.y - p0.y, p1.z - p0.z);
        let b = (p2.x - p0.x, p2.y - p0.y, p2.z - p0.z);
        let cross = (
            a.1 * b.2 - a.2 * b.1,
            a.2 * b.0 - a.0 * b.2,
            a.0 * b.1 - a.1 * b.0,
        );
        let dot = cross.0 * n.x + cross.1 * n.y + cross.2 * n.z;
        assert!(dot > 0, "triangle {} winds the wrong way", t);
    }
}

#[test]
fn meshing_twice_gives_identical_output() {
    let c = Chunk::filled(Position::new(5, -5, 5), 3, 2, 3, BlockType::Dirt, true, false);
    let reg = BlockRegistry::standard();
    let m1 = mesh_chunk(&c, &reg).unwrap();
    let m2 = mesh_chunk(&c, &reg).unwrap();
    assert_eq!(m1, m2);
}

#[test]
fn single_voxel_exact_geometry() {
    // Stone centered on the origin: doubled coordinates, first face is Top
    let mut c = Chunk::new(Position::new(0, 0, 0), 1, 1, 1);
    c.set(Position::new(0, 0, 0), stone()).unwrap();
    let m = mesh_chunk(&c, &BlockRegistry::standard()).unwrap();
    assert_eq!(m.positions[0], Vec3i { x: -1, y: 1, z: -1 });
    assert_eq!(m.positions[1], Vec3i { x: 1, y: 1, z: -1 });
    assert_eq!(m.positions[2], Vec3i { x: 1, y: 1, z: 1 });
    assert_eq!(m.positions[3], Vec3i { x: -1, y: 1, z: 1 });
    assert_eq!(m.normals[0], Vec3i { x: 0, y: 1, z: 0 });
    assert_eq!(m.normals[4], Vec3i { x: 0, y: -1, z: 0 });
    assert_eq!(&m.indices[0..6], &[0, 3, 1, 1, 3, 2]);
    assert_eq!(&m.indices[6..12], &[4, 7, 5, 5, 7, 6]);
}

#[test]
fn world_origin_offsets_vertex_positions() {
    // the same voxel in a chunk at origin (10, 20, 30): every coordinate is
    // shifted by twice the origin
    let mut c = Chunk::new(Position::new(10, 20, 30), 1, 1, 1);
    c.set(Position::new(0, 0, 0), stone()).unwrap();
    let m = mesh_chunk(&c, &BlockRegistry::standard()).unwrap();
    assert_eq!(m.positions[0], Vec3i { x: 19, y: 41, z: 59 });
}

#[test]
fn uvs_follow_atlas_cell() {
    // the standard Dirt material uses atlas cell (1, 28): the face quad
    // spans cells (1..2, 28..29)
    let mut c = Chunk::new(Position::new(0, 0, 0), 1, 1, 1);
    c.set(Position::new(0, 0, 0), Block::new(BlockType::Dirt, true, false)).unwrap();
    let m = mesh_chunk(&c, &BlockRegistry::standard()).unwrap();
    assert_eq!(m.uvs[0], Vec2i { x: 1, y: 29 });
    assert_eq!(m.uvs[1], Vec2i { x: 2, y: 29 });
    assert_eq!(m.uvs[2], Vec2i { x: 2, y: 28 });
    assert_eq!(m.uvs[3], Vec2i { x: 1, y: 28 });
}

#[test]
fn unregistered_type_fails_meshing() {
    let mut c = Chunk::new(Position::new(0, 0, 0), 2, 2, 2);
    c.set(Position::new(0, 0, 0), stone()).unwrap();
    let empty_registry = BlockRegistry::new();
    assert_eq!(mesh_chunk(&c, &empty_registry), Err(VoxelError::InvalidBlockType));
}

#[test]
fn lookup_unknown_block_type_fails() {
    let mut reg = BlockRegistry::new();
    reg.register(MaterialDescriptor::uniform(AtlasCell { x: 0, y: 0 }, false));
    reg.register(MaterialDescriptor::uniform(AtlasCell { x: 1, y: 28 }, true));
    assert!(reg.lookup(BlockType::Dirt).is_ok());
    assert_eq!(reg.lookup(BlockType::Stone), Err(VoxelError::UnknownBlockType));
}

#[test]
fn visible_sides_of_neighbored_voxel() {
    let mut c = Chunk::new(Position::new(0, 0, 0), 2, 1, 1);
    c.set(Position::new(0, 0, 0), stone()).unwrap();
    c.set(Position::new(1, 0, 0), stone()).unwrap();
    let sides = visible_sides(&c, Position::new(0, 0, 0));
    assert_eq!(
        sides,
        vec![Side::Top, Side::Bottom, Side::Left, Side::Forward, Side::Back]
    );
    // an absent cell has no visible sides
    assert!(visible_sides(&c, Position::new(5, 5, 5)).is_empty());
}
