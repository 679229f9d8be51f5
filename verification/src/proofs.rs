//! The meshing laws: properties of the face list and the emitted mesh that
//! hold for every chunk, stated and proved over the mesher's specification
//! functions.

use vstd::prelude::*;

use crate::block_registry::MaterialDescriptor;
use crate::block_types::BlockType;
use crate::chunk_manager::Chunk;
use crate::mesher::{
    append_face_geometry, cell_faces, cell_faces_upto, chunk_faces, chunk_mesh, face_indices,
    face_normals, face_positions, face_visible, faces_upto_x, faces_upto_y, faces_upto_z,
    lemma_cell_faces_none, lemma_cell_faces_upto_len, lemma_mesh_from_faces_len, mesh_from_faces,
    mesh_wf, triangle_ccw,
    vcross, vdot, vsub, FaceRef, MeshModel, Side,
};

verus! {

broadcast use Chunk::lemma_voxel_at_out_of_bounds;

/// No face is its own occluder: every side's normal points somewhere.
proof fn lemma_normal_nonzero(s: Side)
    ensures
        s.normal_spec() != (0int, 0int, 0int),
{
    match s {
        Side::Top => {},
        Side::Bottom => {},
        Side::Forward => {},
        Side::Back => {},
        Side::Left => {},
        Side::Right => {},
    }
}

/// Two adjacent covering voxels never emit the two faces they share: each
/// occludes the other's.
pub proof fn lemma_neighbor_occlusion(c: Chunk, x: int, y: int, z: int, s: Side)
    requires
        c.voxel_at(x, y, z) matches Some(v) && v.covers_spec(),
        c.voxel_at(
            x + s.normal_spec().0,
            y + s.normal_spec().1,
            z + s.normal_spec().2,
        ) matches Some(n) && n.covers_spec(),
    ensures
        !face_visible(c, x, y, z, s),
        !face_visible(
            c,
            x + s.normal_spec().0,
            y + s.normal_spec().1,
            z + s.normal_spec().2,
            s.opposite_spec(),
        ),
{
    match s {
        Side::Top => {},
        Side::Bottom => {},
        Side::Forward => {},
        Side::Back => {},
        Side::Left => {},
        Side::Right => {},
    }
}

/// A present but transparent neighbor does not occlude: the face a meshing
/// voxel shares with it is emitted.  A neighbor of type `Empty` does not
/// occlude either, whatever its flags.
pub proof fn lemma_transparent_neighbor_face_visible(c: Chunk, x: int, y: int, z: int, s: Side)
    requires
        c.voxel_at(x, y, z) matches Some(v) && v.meshes_spec(),
        c.voxel_at(
            x + s.normal_spec().0,
            y + s.normal_spec().1,
            z + s.normal_spec().2,
        ) matches Some(n) && (n.is_transparent || n.block_type == BlockType::Empty),
    ensures
        face_visible(c, x, y, z, s),
{
}

/// Meshing is deterministic: the mesh is a function of the chunk contents
/// and the material table alone, so meshing equal values yields identical
/// output, geometry and ordering included.
pub proof fn lemma_meshing_deterministic(
    c1: Chunk,
    c2: Chunk,
    reg1: Seq<MaterialDescriptor>,
    reg2: Seq<MaterialDescriptor>,
)
    requires
        c1 == c2,
        reg1 == reg2,
    ensures
        chunk_mesh(c1, reg1) == chunk_mesh(c2, reg2),
{
}

/// Whether every present voxel of the chunk is of type `Empty`.
pub open spec fn all_empty(c: Chunk) -> bool {
    forall|x: int, y: int, z: int|
        (#[trigger] c.voxel_at(x, y, z)) matches Some(v) ==> v.block_type == BlockType::Empty
}

/// In a chunk with no visible face anywhere, a run of cells emits nothing.
proof fn lemma_no_faces_upto_z(c: Chunk, x: int, y: int, z: int)
    requires
        forall|a: int, b: int, e: int, s: Side| !(#[trigger] face_visible(c, a, b, e, s)),
    ensures
        faces_upto_z(c, x, y, z) == Seq::<FaceRef>::empty(),
    decreases z,
{
    if z > 0 {
        lemma_no_faces_upto_z(c, x, y, z - 1);
        lemma_cell_faces_none(c, x, y, z - 1);
        assert(faces_upto_z(c, x, y, z) =~= Seq::<FaceRef>::empty());
    }
}

/// In a chunk with no visible face anywhere, a run of columns emits nothing.
proof fn lemma_no_faces_upto_y(c: Chunk, x: int, y: int)
    requires
        forall|a: int, b: int, e: int, s: Side| !(#[trigger] face_visible(c, a, b, e, s)),
    ensures
        faces_upto_y(c, x, y) == Seq::<FaceRef>::empty(),
    decreases y,
{
    if y > 0 {
        lemma_no_faces_upto_y(c, x, y - 1);
        lemma_no_faces_upto_z(c, x, y - 1, c.depth_spec());
        assert(faces_upto_y(c, x, y) =~= Seq::<FaceRef>::empty());
    }
}

/// In a chunk with no visible face anywhere, a run of slabs emits nothing.
proof fn lemma_no_faces_upto_x(c: Chunk, x: int)
    requires
        forall|a: int, b: int, e: int, s: Side| !(#[trigger] face_visible(c, a, b, e, s)),
    ensures
        faces_upto_x(c, x) == Seq::<FaceRef>::empty(),
    decreases x,
{
    if x > 0 {
        lemma_no_faces_upto_x(c, x - 1);
        lemma_no_faces_upto_y(c, x - 1, c.height_spec());
        assert(faces_upto_x(c, x) =~= Seq::<FaceRef>::empty());
    }
}

/// An all-`Empty` chunk produces a mesh with no vertices and no indices.
pub proof fn lemma_empty_chunk_mesh_empty(c: Chunk, reg: Seq<MaterialDescriptor>)
    requires
        all_empty(c),
    ensures
        chunk_faces(c) == Seq::<FaceRef>::empty(),
        chunk_mesh(c, reg) == MeshModel::empty(),
        chunk_mesh(c, reg).positions.len() == 0,
        chunk_mesh(c, reg).indices.len() == 0,
{
    assert forall|a: int, b: int, e: int, s: Side| !(#[trigger] face_visible(c, a, b, e, s)) by {
        if c.voxel_at(a, b, e) is Some {
            assert(c.voxel_at(a, b, e)->Some_0.block_type == BlockType::Empty);
        }
    }
    lemma_no_faces_upto_x(c, c.width_spec());
}

proof fn lemma_fan_top()
    ensures
        vdot(vcross((0int, 0int, 2int), (2int, 0int, 0int)), (0int, 1int, 0int)) == 4,
        vdot(vcross((-2int, 0int, 2int), (0int, 0int, 2int)), (0int, 1int, 0int)) == 4,
{
    assert(vcross((0int, 0int, 2int), (2int, 0int, 0int)) == (0int, 4int, 0int));
    assert(vcross((-2int, 0int, 2int), (0int, 0int, 2int)) == (0int, 4int, 0int));
    assert(vdot((0int, 4int, 0int), (0int, 1int, 0int)) == 4);
}

proof fn lemma_fan_bottom()
    ensures
        vdot(vcross((0int, 0int, -2int), (2int, 0int, 0int)), (0int, -1int, 0int)) == 4,
        vdot(vcross((-2int, 0int, -2int), (0int, 0int, -2int)), (0int, -1int, 0int)) == 4,
{
    assert(vcross((0int, 0int, -2int), (2int, 0int, 0int)) == (0int, -4int, 0int));
    assert(vcross((-2int, 0int, -2int), (0int, 0int, -2int)) == (0int, -4int, 0int));
    assert(vdot((0int, -4int, 0int), (0int, -1int, 0int)) == 4);
}

proof fn lemma_fan_forward()
    ensures
        vdot(vcross((-2int, 0int, 0int), (0int, 2int, 0int)), (0int, 0int, -1int)) == 4,
        vdot(vcross((-2int, -2int, 0int), (-2int, 0int, 0int)), (0int, 0int, -1int)) == 4,
{
    assert(vcross((-2int, 0int, 0int), (0int, 2int, 0int)) == (0int, 0int, -4int));
    assert(vcross((-2int, -2int, 0int), (-2int, 0int, 0int)) == (0int, 0int, -4int));
    assert(vdot((0int, 0int, -4int), (0int, 0int, -1int)) == 4);
}

proof fn lemma_fan_back()
    ensures
        vdot(vcross((2int, 0int, 0int), (0int, 2int, 0int)), (0int, 0int, 1int)) == 4,
        vdot(vcross((2int, -2int, 0int), (2int, 0int, 0int)), (0int, 0int, 1int)) == 4,
{
    assert(vcross((2int, 0int, 0int), (0int, 2int, 0int)) == (0int, 0int, 4int));
    assert(vcross((2int, -2int, 0int), (2int, 0int, 0int)) == (0int, 0int, 4int));
    assert(vdot((0int, 0int, 4int), (0int, 0int, 1int)) == 4);
}

proof fn lemma_fan_left()
    ensures
        vdot(vcross((0int, -2int, 0int), (0int, 0int, 2int)), (-1int, 0int, 0int)) == 4,
        vdot(vcross((0int, -2int, -2int), (0int, -2int, 0int)), (-1int, 0int, 0int)) == 4,
{
    assert(vcross((0int, -2int, 0int), (0int, 0int, 2int)) == (-4int, 0int, 0int));
    assert(vcross((0int, -2int, -2int), (0int, -2int, 0int)) == (-4int, 0int, 0int));
    assert(vdot((-4int, 0int, 0int), (-1int, 0int, 0int)) == 4);
}

proof fn lemma_fan_right()
    ensures
        vdot(vcross((0int, 2int, 0int), (0int, 0int, 2int)), (1int, 0int, 0int)) == 4,
        vdot(vcross((0int, 2int, -2int), (0int, 2int, 0int)), (1int, 0int, 0int)) == 4,
{
    assert(vcross((0int, 2int, 0int), (0int, 0int, 2int)) == (4int, 0int, 0int));
    assert(vcross((0int, 2int, -2int), (0int, 2int, 0int)) == (4int, 0int, 0int));
    assert(vdot((4int, 0int, 0int), (1int, 0int, 0int)) == 4);
}

/// The fixed fan `0,3,1 / 1,3,2` over a face's four corners winds
/// counter-clockwise seen from the side the face's normal points to: both
/// triangles' oriented area vectors lie along that normal.
proof fn lemma_face_fan_ccw(wx: int, wy: int, wz: int, s: Side)
    ensures
        vdot(
            vcross(
                vsub(face_positions(wx, wy, wz, s)[3], face_positions(wx, wy, wz, s)[0]),
                vsub(face_positions(wx, wy, wz, s)[1], face_positions(wx, wy, wz, s)[0]),
            ),
            s.normal_spec(),
        ) > 0,
        vdot(
            vcross(
                vsub(face_positions(wx, wy, wz, s)[3], face_positions(wx, wy, wz, s)[1]),
                vsub(face_positions(wx, wy, wz, s)[2], face_positions(wx, wy, wz, s)[1]),
            ),
            s.normal_spec(),
        ) > 0,
{
    let p = face_positions(wx, wy, wz, s);
    match s {
        Side::Top => {
            lemma_fan_top();
            assert(s.normal_spec() == (0int, 1int, 0int));
            assert(vsub(p[3], p[0]) == (0int, 0int, 2int));
            assert(vsub(p[1], p[0]) == (2int, 0int, 0int));
            assert(vsub(p[3], p[1]) == (-2int, 0int, 2int));
            assert(vsub(p[2], p[1]) == (0int, 0int, 2int));
        },
        Side::Bottom => {
            lemma_fan_bottom();
            assert(s.normal_spec() == (0int, -1int, 0int));
            assert(vsub(p[3], p[0]) == (0int, 0int, -2int));
            assert(vsub(p[1], p[0]) == (2int, 0int, 0int));
            assert(vsub(p[3], p[1]) == (-2int, 0int, -2int));
            assert(vsub(p[2], p[1]) == (0int, 0int, -2int));
        },
        Side::Forward => {
            lemma_fan_forward();
            assert(s.normal_spec() == (0int, 0int, -1int));
            assert(vsub(p[3], p[0]) == (-2int, 0int, 0int));
            assert(vsub(p[1], p[0]) == (0int, 2int, 0int));
            assert(vsub(p[3], p[1]) == (-2int, -2int, 0int));
            assert(vsub(p[2], p[1]) == (-2int, 0int, 0int));
        },
        Side::Back => {
            lemma_fan_back();
            assert(s.normal_spec() == (0int, 0int, 1int));
            assert(vsub(p[3], p[0]) == (2int, 0int, 0int));
            assert(vsub(p[1], p[0]) == (0int, 2int, 0int));
            assert(vsub(p[3], p[1]) == (2int, -2int, 0int));
            assert(vsub(p[2], p[1]) == (2int, 0int, 0int));
        },
        Side::Left => {
            lemma_fan_left();
            assert(s.normal_spec() == (-1int, 0int, 0int));
            assert(vsub(p[3], p[0]) == (0int, -2int, 0int));
            assert(vsub(p[1], p[0]) == (0int, 0int, 2int));
            assert(vsub(p[3], p[1]) == (0int, -2int, -2int));
            assert(vsub(p[2], p[1]) == (0int, -2int, 0int));
        },
        Side::Right => {
            lemma_fan_right();
            assert(s.normal_spec() == (1int, 0int, 0int));
            assert(vsub(p[3], p[0]) == (0int, 2int, 0int));
            assert(vsub(p[1], p[0]) == (0int, 0int, 2int));
            assert(vsub(p[3], p[1]) == (0int, 2int, -2int));
            assert(vsub(p[2], p[1]) == (0int, 2int, 0int));
        },
    }
}

/// Appending one face to a well-formed mesh keeps it well-formed: the six
/// new indices point at the four new vertices, and the two new triangles
/// wind counter-clockwise.
proof fn lemma_append_face_wf(m: MeshModel, wx: int, wy: int, wz: int, s: Side, cell: (int, int))
    requires
        mesh_wf(m),
    ensures
        mesh_wf(append_face_geometry(m, wx, wy, wz, s, cell)),
{
    let m2 = append_face_geometry(m, wx, wy, wz, s, cell);
    let base = m.positions.len() as int;
    let n = m.indices.len() as int;
    assert(m2.positions.len() == base + 4);
    assert(m2.indices.len() == n + 6);
    assert forall|i: int| 0 <= i < m2.indices.len() implies 0 <= #[trigger] m2.indices[i]
        < m2.positions.len() by {
        if i < n {
            assert(m2.indices[i] == m.indices[i]);
        } else {
            assert(m2.indices[i] == face_indices(base)[i - n]);
        }
    }
    let t_old = n / 3;
    assert(m2.indices.len() / 3 == t_old + 2);
    assert forall|t: int| 0 <= t < m2.indices.len() / 3 implies #[trigger] triangle_ccw(m2, t) by {
        if t < t_old {
            let i0 = m.indices[3 * t];
            let i1 = m.indices[3 * t + 1];
            let i2 = m.indices[3 * t + 2];
            assert(0 <= i0 < base && 0 <= i1 < base && 0 <= i2 < base);
            assert(m2.indices[3 * t] == i0 && m2.indices[3 * t + 1] == i1 && m2.indices[3 * t + 2]
                == i2);
            assert(m2.positions[i0] == m.positions[i0]);
            assert(m2.positions[i1] == m.positions[i1]);
            assert(m2.positions[i2] == m.positions[i2]);
            assert(m2.normals[i0] == m.normals[i0]);
            assert(triangle_ccw(m, t));
        } else {
            lemma_face_fan_ccw(wx, wy, wz, s);
            let p = face_positions(wx, wy, wz, s);
            if t == t_old {
                assert(m2.indices[3 * t] == face_indices(base)[0]);
                assert(m2.indices[3 * t + 1] == face_indices(base)[1]);
                assert(m2.indices[3 * t + 2] == face_indices(base)[2]);
                assert(m2.positions[base] == p[0]);
                assert(m2.positions[base + 3] == p[3]);
                assert(m2.positions[base + 1] == p[1]);
                assert(m2.normals[base] == face_normals(s)[0]);
            } else {
                assert(t == t_old + 1);
                assert(m2.indices[3 * t] == face_indices(base)[3]);
                assert(m2.indices[3 * t + 1] == face_indices(base)[4]);
                assert(m2.indices[3 * t + 2] == face_indices(base)[5]);
                assert(m2.positions[base + 1] == p[1]);
                assert(m2.positions[base + 3] == p[3]);
                assert(m2.positions[base + 2] == p[2]);
                assert(m2.normals[base + 1] == face_normals(s)[1]);
            }
        }
    }
}

/// The mesh of any face list is well-formed.
proof fn lemma_mesh_from_faces_wf(c: Chunk, reg: Seq<MaterialDescriptor>, faces: Seq<FaceRef>)
    ensures
        mesh_wf(mesh_from_faces(c, reg, faces)),
    decreases faces.len(),
{
    if faces.len() == 0 {
        assert(mesh_wf(MeshModel::empty()));
    } else {
        lemma_mesh_from_faces_wf(c, reg, faces.drop_last());
        let f = faces.last();
        lemma_append_face_wf(
            mesh_from_faces(c, reg, faces.drop_last()),
            c.origin_spec().x + f.x,
            c.origin_spec().y + f.y,
            c.origin_spec().z + f.z,
            f.side,
            crate::mesher::face_cell(c, reg, f),
        );
    }
}

/// Every generated chunk mesh is well-formed: the per-vertex buffers agree
/// in length, every index lies below the vertex count, the indices split
/// into whole triangles, and every triangle winds counter-clockwise seen
/// from its outward normal.
pub proof fn lemma_chunk_mesh_wf(c: Chunk, reg: Seq<MaterialDescriptor>)
    ensures
        mesh_wf(chunk_mesh(c, reg)),
{
    lemma_mesh_from_faces_wf(c, reg, chunk_faces(c));
}


/// A cell all of whose faces are visible emits exactly six.
proof fn lemma_cell_faces_all_visible(c: Chunk, x: int, y: int, z: int)
    requires
        forall|s: Side| #[trigger] face_visible(c, x, y, z, s),
    ensures
        cell_faces(c, x, y, z).len() == 6,
{
    assert(cell_faces_upto(c, x, y, z, 0).len() == 0);
    assert(cell_faces_upto(c, x, y, z, 1).len() == 1);
    assert(cell_faces_upto(c, x, y, z, 2).len() == 2);
    assert(cell_faces_upto(c, x, y, z, 3).len() == 3);
    assert(cell_faces_upto(c, x, y, z, 4).len() == 4);
    assert(cell_faces_upto(c, x, y, z, 5).len() == 5);
    assert(cell_faces_upto(c, x, y, z, 6).len() == 6);
}

/// When only cell `(x0, y0, z0)` emits faces, a run of cells contributes
/// that cell's faces where it covers it and nothing elsewhere.
proof fn lemma_single_faces_upto_z(c: Chunk, x0: int, y0: int, z0: int, x: int, y: int, m: int)
    requires
        forall|a: int, b: int, e: int, s: Side|
            !(a == x0 && b == y0 && e == z0) ==> !(#[trigger] face_visible(c, a, b, e, s)),
        0 <= z0,
    ensures
        faces_upto_z(c, x, y, m) == (if x == x0 && y == y0 && z0 < m {
            cell_faces(c, x0, y0, z0)
        } else {
            Seq::<FaceRef>::empty()
        }),
    decreases m,
{
    if m > 0 {
        lemma_single_faces_upto_z(c, x0, y0, z0, x, y, m - 1);
        if x == x0 && y == y0 && m - 1 == z0 {
            assert(faces_upto_z(c, x, y, m) =~= cell_faces(c, x0, y0, z0));
        } else {
            lemma_cell_faces_none(c, x, y, m - 1);
            assert(faces_upto_z(c, x, y, m) =~= faces_upto_z(c, x, y, m - 1));
        }
    }
}

/// When only cell `(x0, y0, z0)` emits faces, a run of columns contributes
/// that cell's faces where it covers it and nothing elsewhere.
proof fn lemma_single_faces_upto_y(c: Chunk, x0: int, y0: int, z0: int, x: int, m: int)
    requires
        forall|a: int, b: int, e: int, s: Side|
            !(a == x0 && b == y0 && e == z0) ==> !(#[trigger] face_visible(c, a, b, e, s)),
        0 <= z0 < c.depth_spec(),
        0 <= y0,
    ensures
        faces_upto_y(c, x, m) == (if x == x0 && y0 < m {
            cell_faces(c, x0, y0, z0)
        } else {
            Seq::<FaceRef>::empty()
        }),
    decreases m,
{
    if m > 0 {
        lemma_single_faces_upto_y(c, x0, y0, z0, x, m - 1);
        lemma_single_faces_upto_z(c, x0, y0, z0, x, m - 1, c.depth_spec());
        if x == x0 && m - 1 == y0 {
            assert(faces_upto_y(c, x, m) =~= cell_faces(c, x0, y0, z0));
        } else {
            assert(faces_upto_y(c, x, m) =~= faces_upto_y(c, x, m - 1));
        }
    }
}

/// When only cell `(x0, y0, z0)` emits faces, a run of slabs contributes
/// that cell's faces where it covers it and nothing elsewhere.
proof fn lemma_single_faces_upto_x(c: Chunk, x0: int, y0: int, z0: int, m: int)
    requires
        forall|a: int, b: int, e: int, s: Side|
            !(a == x0 && b == y0 && e == z0) ==> !(#[trigger] face_visible(c, a, b, e, s)),
        0 <= z0 < c.depth_spec(),
        0 <= y0 < c.height_spec(),
        0 <= x0,
    ensures
        faces_upto_x(c, m) == (if x0 < m {
            cell_faces(c, x0, y0, z0)
        } else {
            Seq::<FaceRef>::empty()
        }),
    decreases m,
{
    if m > 0 {
        lemma_single_faces_upto_x(c, x0, y0, z0, m - 1);
        lemma_single_faces_upto_y(c, x0, y0, z0, m - 1, c.height_spec());
        if m - 1 == x0 {
            assert(faces_upto_x(c, m) =~= cell_faces(c, x0, y0, z0));
        } else {
            assert(faces_upto_x(c, m) =~= faces_upto_x(c, m - 1));
        }
    }
}

/// A chunk whose only non-`Empty` voxel sits at `(x, y, z)` and meshes
/// emits exactly the six faces of that voxel: 24 vertices, 24 normals,
/// 24 texture coordinates and 36 indices.
pub proof fn lemma_single_voxel_six_faces(
    c: Chunk,
    reg: Seq<MaterialDescriptor>,
    x: int,
    y: int,
    z: int,
)
    requires
        c.wf(),
        c.in_bounds(x, y, z),
        c.voxel_at(x, y, z) matches Some(v) && v.meshes_spec(),
        forall|a: int, b: int, e: int|
            !(a == x && b == y && e == z) ==> ((#[trigger] c.voxel_at(a, b, e)) matches Some(n)
                ==> n.block_type == BlockType::Empty),
    ensures
        chunk_faces(c) == cell_faces(c, x, y, z),
        chunk_faces(c).len() == 6,
        chunk_mesh(c, reg).positions.len() == 24,
        chunk_mesh(c, reg).normals.len() == 24,
        chunk_mesh(c, reg).uvs.len() == 24,
        chunk_mesh(c, reg).indices.len() == 36,
{
    assert forall|s: Side| #[trigger] face_visible(c, x, y, z, s) by {
        lemma_normal_nonzero(s);
        let nx = x + s.normal_spec().0;
        let ny = y + s.normal_spec().1;
        let nz = z + s.normal_spec().2;
        assert(!(nx == x && ny == y && nz == z));
        if c.voxel_at(nx, ny, nz) is Some {
            assert(c.voxel_at(nx, ny, nz)->Some_0.block_type == BlockType::Empty);
        }
    }
    assert forall|a: int, b: int, e: int, s: Side|
        !(a == x && b == y && e == z) implies !(#[trigger] face_visible(c, a, b, e, s)) by {
        if c.voxel_at(a, b, e) is Some {
            assert(c.voxel_at(a, b, e)->Some_0.block_type == BlockType::Empty);
        }
    }
    lemma_single_faces_upto_x(c, x, y, z, c.width_spec());
    lemma_cell_faces_all_visible(c, x, y, z);
    lemma_mesh_from_faces_len(c, reg, chunk_faces(c));
}


/// Whether every cell of the chunk holds a visible, opaque, non-`Empty`
/// voxel: a fully solid chunk.
pub open spec fn fully_solid(c: Chunk) -> bool {
    forall|x: int, y: int, z: int|
        c.in_bounds(x, y, z) ==> ((#[trigger] c.voxel_at(x, y, z)) matches Some(v)
            && v.meshes_spec() && v.covers_spec())
}

/// The indicator of a condition: its contribution to a face count.
pub open spec fn ind(b: bool) -> int {
    if b {
        1
    } else {
        0
    }
}

/// The number of sides on which cell `(x, y, z)` touches the chunk
/// boundary: the faces a solid chunk emits there.
spec fn boundary_sides(c: Chunk, x: int, y: int, z: int) -> int {
    ind(y == c.height_spec() - 1) + ind(y == 0) + ind(x == 0) + ind(x == c.width_spec() - 1)
        + ind(z == 0) + ind(z == c.depth_spec() - 1)
}

/// The number of x/y boundary sides shared by every cell of column
/// `(x, y)`.
spec fn column_sides(c: Chunk, x: int, y: int) -> int {
    ind(y == c.height_spec() - 1) + ind(y == 0) + ind(x == 0) + ind(x == c.width_spec() - 1)
}

/// The number of x boundary sides shared by every cell of slab `x`.
spec fn slab_sides(c: Chunk, x: int) -> int {
    ind(x == 0) + ind(x == c.width_spec() - 1)
}

/// In a solid chunk, a cell emits exactly its boundary faces.
proof fn lemma_solid_cell_faces(c: Chunk, x: int, y: int, z: int)
    requires
        c.wf(),
        fully_solid(c),
        c.in_bounds(x, y, z),
    ensures
        cell_faces(c, x, y, z).len() == boundary_sides(c, x, y, z),
{
    let w = c.width_spec();
    let h = c.height_spec();
    let d = c.depth_spec();
    assert(face_visible(c, x, y, z, Side::Top) == (y == h - 1)) by {
        if y + 1 < h {
            assert(c.in_bounds(x, y + 1, z));
        }
    }
    assert(face_visible(c, x, y, z, Side::Bottom) == (y == 0)) by {
        if y - 1 >= 0 {
            assert(c.in_bounds(x, y - 1, z));
        }
    }
    assert(face_visible(c, x, y, z, Side::Left) == (x == 0)) by {
        if x - 1 >= 0 {
            assert(c.in_bounds(x - 1, y, z));
        }
    }
    assert(face_visible(c, x, y, z, Side::Right) == (x == w - 1)) by {
        if x + 1 < w {
            assert(c.in_bounds(x + 1, y, z));
        }
    }
    assert(face_visible(c, x, y, z, Side::Forward) == (z == 0)) by {
        if z - 1 >= 0 {
            assert(c.in_bounds(x, y, z - 1));
        }
    }
    assert(face_visible(c, x, y, z, Side::Back) == (z == d - 1)) by {
        if z + 1 < d {
            assert(c.in_bounds(x, y, z + 1));
        }
    }
    assert(cell_faces_upto(c, x, y, z, 0).len() == 0);
    assert(cell_faces_upto(c, x, y, z, 1).len() == ind(y == h - 1));
    assert(cell_faces_upto(c, x, y, z, 2).len() == ind(y == h - 1) + ind(y == 0));
    assert(cell_faces_upto(c, x, y, z, 3).len() == ind(y == h - 1) + ind(y == 0) + ind(x == 0));
    assert(cell_faces_upto(c, x, y, z, 4).len() == column_sides(c, x, y));
    assert(cell_faces_upto(c, x, y, z, 5).len() == column_sides(c, x, y) + ind(z == 0));
    assert(cell_faces_upto(c, x, y, z, 6).len() == boundary_sides(c, x, y, z));
}


/// Multiplication distributes over a sum.
proof fn lemma_mul_dist(a: int, b: int, e: int)
    by (nonlinear_arith)
    ensures
        a * (b + e) == a * b + a * e,
{
}

/// One more multiple: `(m - 1) * p + p == m * p`.
proof fn lemma_mul_step(m: int, p: int)
    by (nonlinear_arith)
    ensures
        (m - 1) * p + p == m * p,
{
}

/// Multiplication is associative.
proof fn lemma_mul_assoc(a: int, b: int, e: int)
    by (nonlinear_arith)
    ensures
        a * (b * e) == (a * b) * e,
{
}

/// In a solid chunk, the first `m` cells of a column emit `m` times the
/// column's x/y boundary faces, plus the column's two end faces as soon as
/// the run covers them.
proof fn lemma_solid_faces_upto_z(c: Chunk, x: int, y: int, m: int)
    requires
        c.wf(),
        fully_solid(c),
        0 <= x < c.width_spec(),
        0 <= y < c.height_spec(),
        0 <= m <= c.depth_spec(),
    ensures
        faces_upto_z(c, x, y, m).len() == m * column_sides(c, x, y) + ind(m >= 1) + ind(m
            >= c.depth_spec()),
    decreases m,
{
    let a = column_sides(c, x, y);
    let d = c.depth_spec();
    if m > 0 {
        lemma_solid_faces_upto_z(c, x, y, m - 1);
        lemma_solid_cell_faces(c, x, y, m - 1);
        assert(c.in_bounds(x, y, m - 1));
        assert(faces_upto_z(c, x, y, m).len() == faces_upto_z(c, x, y, m - 1).len() + cell_faces(
            c,
            x,
            y,
            m - 1,
        ).len());
        assert(boundary_sides(c, x, y, m - 1) == a + ind(m - 1 == 0) + ind(m - 1 == d - 1));
        assert(faces_upto_z(c, x, y, m).len() == (m - 1) * a + a + ind(m - 1 >= 1) + ind(m - 1
            >= d) + ind(m - 1 == 0) + ind(m - 1 == d - 1));
        assert(ind(m - 1 >= 1) + ind(m - 1 == 0) == ind(m >= 1));
        assert(ind(m - 1 >= d) + ind(m - 1 == d - 1) == ind(m >= d));
        assert((m - 1) * a + a == m * a) by (nonlinear_arith);
    } else {
        assert(faces_upto_z(c, x, y, 0).len() == 0);
        assert(ind(m >= 1) == 0 && ind(m >= d) == 0);
        assert(m * a == 0) by (nonlinear_arith)
            requires
                m == 0,
        ;
    }
}

/// In a solid chunk, the first `m` columns of a slab emit `m` times the
/// slab's per-column faces, plus the slab's two edge runs as soon as the
/// run covers them.
proof fn lemma_solid_faces_upto_y(c: Chunk, x: int, m: int)
    requires
        c.wf(),
        fully_solid(c),
        0 <= x < c.width_spec(),
        0 <= m <= c.height_spec(),
    ensures
        faces_upto_y(c, x, m).len() == m * (c.depth_spec() * slab_sides(c, x) + 2)
            + c.depth_spec() * (ind(m >= 1) + ind(m >= c.height_spec())),
    decreases m,
{
    let h = c.height_spec();
    let d = c.depth_spec();
    let sx = slab_sides(c, x);
    let per = d * sx + 2;
    if m > 0 {
        lemma_solid_faces_upto_y(c, x, m - 1);
        lemma_solid_faces_upto_z(c, x, m - 1, d);
        let i1 = ind(m - 1 == h - 1);
        let i2 = ind(m - 1 == 0);
        let j1 = ind(m - 1 >= 1);
        let j2 = ind(m - 1 >= h);
        assert(faces_upto_y(c, x, m).len() == faces_upto_y(c, x, m - 1).len() + faces_upto_z(
            c,
            x,
            m - 1,
            d,
        ).len());
        assert(faces_upto_z(c, x, m - 1, d).len() == d * column_sides(c, x, m - 1) + 2);
        assert(column_sides(c, x, m - 1) == i1 + i2 + sx);
        lemma_mul_dist(d, i1 + i2, sx);
        lemma_mul_dist(d, i1, i2);
        lemma_mul_step(m, per);
        lemma_mul_dist(d, j1, j2);
        lemma_mul_dist(d, ind(m >= 1), ind(m >= h));
        lemma_mul_dist(d, i2, j1);
        lemma_mul_dist(d, i1, j2);
        assert(i2 + j1 == ind(m >= 1));
        assert(i1 + j2 == ind(m >= h));
        assert(faces_upto_y(c, x, m).len() == m * per + d * (ind(m >= 1) + ind(m >= h)));
    } else {
        assert(faces_upto_y(c, x, 0).len() == 0);
        assert(m * per == 0) by (nonlinear_arith)
            requires
                m == 0,
        ;
        assert(d * (ind(m >= 1) + ind(m >= h)) == 0) by (nonlinear_arith)
            requires
                ind(m >= 1) + ind(m >= h) == 0,
        ;
    }
}

/// In a solid chunk, the first `m` slabs emit `m` times the chunk's
/// per-slab faces, plus the two outermost slabs' full sides as soon as the
/// run covers them.
proof fn lemma_solid_faces_upto_x(c: Chunk, m: int)
    requires
        c.wf(),
        fully_solid(c),
        0 <= m <= c.width_spec(),
    ensures
        faces_upto_x(c, m).len() == (c.height_spec() * c.depth_spec()) * (ind(m >= 1) + ind(m
            >= c.width_spec())) + m * (2 * c.height_spec() + 2 * c.depth_spec()),
    decreases m,
{
    let w = c.width_spec();
    let h = c.height_spec();
    let d = c.depth_spec();
    let per = 2 * h + 2 * d;
    if m > 0 {
        lemma_solid_faces_upto_x(c, m - 1);
        lemma_solid_faces_upto_y(c, m - 1, h);
        let i1 = ind(m - 1 == 0);
        let i2 = ind(m - 1 == w - 1);
        let j1 = ind(m - 1 >= 1);
        let j2 = ind(m - 1 >= w);
        assert(faces_upto_x(c, m).len() == faces_upto_x(c, m - 1).len() + faces_upto_y(
            c,
            m - 1,
            h,
        ).len());
        assert(faces_upto_y(c, m - 1, h).len() == h * (d * slab_sides(c, m - 1) + 2) + d * 2);
        assert(slab_sides(c, m - 1) == i1 + i2);
        lemma_mul_dist(h, d * (i1 + i2), 2);
        lemma_mul_assoc(h, d, i1 + i2);
        lemma_mul_dist(h * d, i1, i2);
        lemma_mul_dist(h * d, j1, j2);
        lemma_mul_dist(h * d, ind(m >= 1), ind(m >= w));
        lemma_mul_dist(h * d, i1, j1);
        lemma_mul_dist(h * d, i2, j2);
        lemma_mul_step(m, per);
        assert(i1 + j1 == ind(m >= 1));
        assert(i2 + j2 == ind(m >= w));
        assert(faces_upto_x(c, m).len() == (h * d) * (ind(m >= 1) + ind(m >= w)) + m * per);
    } else {
        assert(faces_upto_x(c, 0).len() == 0);
        assert(m * per == 0) by (nonlinear_arith)
            requires
                m == 0,
        ;
        assert((h * d) * (ind(m >= 1) + ind(m >= w)) == 0) by (nonlinear_arith)
            requires
                ind(m >= 1) + ind(m >= w) == 0,
        ;
    }
}

/// A fully solid chunk of dimensions `w × h × d` emits exactly its boundary
/// faces: `2 * (w*h + h*d + d*w)` of them, each with four vertices and six
/// indices, and none between interior neighbors.
pub proof fn lemma_solid_chunk_face_count(c: Chunk, reg: Seq<MaterialDescriptor>)
    requires
        c.wf(),
        fully_solid(c),
    ensures
        chunk_faces(c).len() == 2 * (c.width_spec() * c.height_spec() + c.height_spec()
            * c.depth_spec() + c.depth_spec() * c.width_spec()),
        chunk_mesh(c, reg).positions.len() == 4 * chunk_faces(c).len(),
        chunk_mesh(c, reg).indices.len() == 6 * chunk_faces(c).len(),
{
    let w = c.width_spec();
    let h = c.height_spec();
    let d = c.depth_spec();
    lemma_solid_faces_upto_x(c, w);
    assert((h * d) * 2 + w * (2 * h + 2 * d) == 2 * (w * h + h * d + d * w)) by (nonlinear_arith);
    lemma_mesh_from_faces_len(c, reg, chunk_faces(c));
}



/// Whether the voxel of cell `(x, y, z)` emits faces at all.
pub open spec fn cell_meshes(c: Chunk, x: int, y: int, z: int) -> bool {
    c.voxel_at(x, y, z) matches Some(v) && v.meshes_spec()
}

/// The number of meshing voxels among cells `(x, y, 0) .. (x, y, z)`.
pub open spec fn meshing_count_z(c: Chunk, x: int, y: int, z: int) -> int
    decreases z,
{
    if z <= 0 {
        0
    } else {
        meshing_count_z(c, x, y, z - 1) + ind(cell_meshes(c, x, y, z - 1))
    }
}

/// The number of meshing voxels among the columns `(x, 0) .. (x, y)`.
pub open spec fn meshing_count_y(c: Chunk, x: int, y: int) -> int
    decreases y,
{
    if y <= 0 {
        0
    } else {
        meshing_count_y(c, x, y - 1) + meshing_count_z(c, x, y - 1, c.depth_spec())
    }
}

/// The number of meshing voxels among the slabs `0 .. x`.
pub open spec fn meshing_count_x(c: Chunk, x: int) -> int
    decreases x,
{
    if x <= 0 {
        0
    } else {
        meshing_count_x(c, x - 1) + meshing_count_y(c, x - 1, c.height_spec())
    }
}

/// The number of meshing voxels of the chunk: those that are present,
/// non-`Empty` and visible.
pub open spec fn meshing_voxel_count(c: Chunk) -> int {
    meshing_count_x(c, c.width_spec())
}

/// A cell emits at most six faces, and none unless its voxel meshes.
proof fn lemma_cell_faces_len_bound(c: Chunk, x: int, y: int, z: int)
    ensures
        cell_faces(c, x, y, z).len() <= 6 * ind(cell_meshes(c, x, y, z)),
{
    if cell_meshes(c, x, y, z) {
        lemma_cell_faces_upto_len(c, x, y, z, 6);
    } else {
        assert forall|s: Side| !face_visible(c, x, y, z, s) by {}
        lemma_cell_faces_none(c, x, y, z);
    }
}

/// A run of cells emits at most six faces per meshing voxel in it.
proof fn lemma_face_bound_upto_z(c: Chunk, x: int, y: int, z: int)
    ensures
        faces_upto_z(c, x, y, z).len() <= 6 * meshing_count_z(c, x, y, z),
        0 <= meshing_count_z(c, x, y, z),
    decreases z,
{
    if z > 0 {
        lemma_face_bound_upto_z(c, x, y, z - 1);
        lemma_cell_faces_len_bound(c, x, y, z - 1);
    }
}

/// A run of columns emits at most six faces per meshing voxel in it.
proof fn lemma_face_bound_upto_y(c: Chunk, x: int, y: int)
    ensures
        faces_upto_y(c, x, y).len() <= 6 * meshing_count_y(c, x, y),
        0 <= meshing_count_y(c, x, y),
    decreases y,
{
    if y > 0 {
        lemma_face_bound_upto_y(c, x, y - 1);
        lemma_face_bound_upto_z(c, x, y - 1, c.depth_spec());
    }
}

/// A run of slabs emits at most six faces per meshing voxel in it.
proof fn lemma_face_bound_upto_x(c: Chunk, x: int)
    ensures
        faces_upto_x(c, x).len() <= 6 * meshing_count_x(c, x),
        0 <= meshing_count_x(c, x),
    decreases x,
{
    if x > 0 {
        lemma_face_bound_upto_x(c, x - 1);
        lemma_face_bound_upto_y(c, x - 1, c.height_spec());
    }
}

/// The mesher's output bound: a chunk emits at most six faces per meshing
/// voxel, so at most `24` vertices and `36` indices per such voxel.
pub proof fn lemma_face_count_bound(c: Chunk, reg: Seq<MaterialDescriptor>)
    ensures
        chunk_faces(c).len() <= 6 * meshing_voxel_count(c),
        chunk_mesh(c, reg).positions.len() <= 24 * meshing_voxel_count(c),
        chunk_mesh(c, reg).indices.len() <= 36 * meshing_voxel_count(c),
{
    lemma_face_bound_upto_x(c, c.width_spec());
    lemma_mesh_from_faces_len(c, reg, chunk_faces(c));
}

} // verus!
