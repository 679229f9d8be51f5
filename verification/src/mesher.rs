//! The face-culling mesher: from a chunk's voxels to the visible-face
//! geometry.

use vstd::prelude::*;

use crate::block_registry::{AtlasCell, BlockRegistry, MaterialDescriptor};
use crate::chunk_manager::{Chunk, Position};
use crate::VoxelError;

verus! {

broadcast use Chunk::lemma_voxel_at_out_of_bounds;

/// One of the six axis-aligned faces of a voxel cube, named from the voxel's
/// point of view: `Top` faces `+y`, `Bottom` `-y`, `Forward` `-z`, `Back`
/// `+z`, `Left` `-x`, `Right` `+x`.
#[derive(Clone, Copy, PartialEq, Eq, Structural, Debug)]
pub enum Side {
    Top,
    Bottom,
    Forward,
    Back,
    Left,
    Right,
}

impl Side {
    /// The outward unit normal of this face; also the lattice offset of the
    /// neighbor that can occlude it.
    pub open spec fn normal_spec(self) -> (int, int, int) {
        match self {
            Side::Top => (0, 1, 0),
            Side::Bottom => (0, -1, 0),
            Side::Forward => (0, 0, -1),
            Side::Back => (0, 0, 1),
            Side::Left => (-1, 0, 0),
            Side::Right => (1, 0, 0),
        }
    }

    /// The face on the opposite side of the cube.
    pub open spec fn opposite_spec(self) -> Side {
        match self {
            Side::Top => Side::Bottom,
            Side::Bottom => Side::Top,
            Side::Forward => Side::Back,
            Side::Back => Side::Forward,
            Side::Left => Side::Right,
            Side::Right => Side::Left,
        }
    }

    /// The corner offsets of this face in half-voxel units relative to the
    /// voxel center, in emission order.  The order is chosen so that the
    /// fixed index fan `0,3,1 / 1,3,2` winds counter-clockwise seen from
    /// outside the cube.
    pub open spec fn corner_offset(self, k: int) -> (int, int, int) {
        match self {
            Side::Top => [(-1, 1, -1), (1, 1, -1), (1, 1, 1), (-1, 1, 1)][k],
            Side::Bottom => [(-1, -1, 1), (1, -1, 1), (1, -1, -1), (-1, -1, -1)][k],
            Side::Forward => [(1, -1, -1), (1, 1, -1), (-1, 1, -1), (-1, -1, -1)][k],
            Side::Back => [(-1, -1, 1), (-1, 1, 1), (1, 1, 1), (1, -1, 1)][k],
            Side::Left => [(-1, 1, -1), (-1, 1, 1), (-1, -1, 1), (-1, -1, -1)][k],
            Side::Right => [(1, -1, -1), (1, -1, 1), (1, 1, 1), (1, 1, -1)][k],
        }
    }
}

/// The per-corner texture offsets of a face, in atlas-cell units: the same
/// quad for every face, in emission order.
pub open spec fn uv_offset(k: int) -> (int, int) {
    [(0, 1), (1, 1), (1, 0), (0, 0)][k]
}

/// The order in which a voxel's sides are examined and its visible faces
/// emitted.
pub open spec fn side_order() -> Seq<Side> {
    seq![Side::Top, Side::Bottom, Side::Left, Side::Right, Side::Forward, Side::Back]
}

/// A three-component integer vector: a vertex position in half-voxel units,
/// or a unit face normal.
#[derive(Clone, Copy, PartialEq, Eq, Structural, Debug)]
pub struct Vec3i {
    pub x: i64,
    pub y: i64,
    pub z: i64,
}

/// A two-component integer vector: a texture coordinate in atlas-cell units.
#[derive(Clone, Copy, PartialEq, Eq, Structural, Debug)]
pub struct Vec2i {
    pub x: i64,
    pub y: i64,
}

/// The emitted geometry of a meshing pass: parallel per-vertex buffers and a
/// triangle index list.  Each visible face owns four consecutive vertices
/// and six indices (two triangles); vertices are not shared across faces.
#[derive(Clone, PartialEq, Eq, Debug)]
pub struct Mesh {
    /// Vertex positions in half-voxel units (twice the world coordinate).
    pub positions: Vec<Vec3i>,
    /// Outward unit normals, one per vertex, constant across a face.
    pub normals: Vec<Vec3i>,
    /// Texture coordinates in atlas-cell units.
    pub uvs: Vec<Vec2i>,
    /// Triangle list: three vertex indices per triangle, counter-clockwise
    /// seen from outside the solid.
    pub indices: Vec<u32>,
}

/// The mathematical value of a `Mesh`.
#[verifier::ext_equal]
pub ghost struct MeshModel {
    pub positions: Seq<(int, int, int)>,
    pub normals: Seq<(int, int, int)>,
    pub uvs: Seq<(int, int)>,
    pub indices: Seq<int>,
}

impl MeshModel {
    /// The model of a mesh with no geometry.
    pub open spec fn empty() -> MeshModel {
        MeshModel {
            positions: Seq::empty(),
            normals: Seq::empty(),
            uvs: Seq::empty(),
            indices: Seq::empty(),
        }
    }
}

impl View for Mesh {
    type V = MeshModel;

    open spec fn view(&self) -> MeshModel {
        MeshModel {
            positions: self.positions@.map_values(|v: Vec3i| (v.x as int, v.y as int, v.z as int)),
            normals: self.normals@.map_values(|v: Vec3i| (v.x as int, v.y as int, v.z as int)),
            uvs: self.uvs@.map_values(|v: Vec2i| (v.x as int, v.y as int)),
            indices: self.indices@.map_values(|i: u32| i as int),
        }
    }
}

/// One visible face of one voxel: the voxel's chunk-local cell and the side
/// the face lies on.
pub ghost struct FaceRef {
    pub x: int,
    pub y: int,
    pub z: int,
    pub side: Side,
}

/// Whether the neighbor sharing the `s` face of cell `(x, y, z)` leaves that
/// face visible: the neighbor is absent (nothing is known to occlude at a
/// chunk boundary) or present but not covering.
pub open spec fn neighbor_clear(c: Chunk, x: int, y: int, z: int, s: Side) -> bool {
    match c.voxel_at(
        x + s.normal_spec().0,
        y + s.normal_spec().1,
        z + s.normal_spec().2,
    ) {
        Some(n) => !n.covers_spec(),
        None => true,
    }
}

/// Whether the mesher emits the `s` face of cell `(x, y, z)`: the cell holds
/// a voxel that meshes, and the neighbor on that side does not occlude it.
pub open spec fn face_visible(c: Chunk, x: int, y: int, z: int, s: Side) -> bool {
    match c.voxel_at(x, y, z) {
        Some(v) => v.meshes_spec() && neighbor_clear(c, x, y, z, s),
        None => false,
    }
}

/// The faces of cell `(x, y, z)` among the first `n` sides of the emission
/// order.
pub open spec fn cell_faces_upto(c: Chunk, x: int, y: int, z: int, n: int) -> Seq<FaceRef>
    decreases n,
{
    if n <= 0 {
        Seq::empty()
    } else {
        cell_faces_upto(c, x, y, z, n - 1) + (if face_visible(c, x, y, z, side_order()[n - 1]) {
            seq![FaceRef { x, y, z, side: side_order()[n - 1] }]
        } else {
            Seq::empty()
        })
    }
}

/// The visible faces of cell `(x, y, z)`, in emission order.
pub open spec fn cell_faces(c: Chunk, x: int, y: int, z: int) -> Seq<FaceRef> {
    cell_faces_upto(c, x, y, z, 6)
}

/// The faces of cells `(x, y, 0) .. (x, y, z)`, in emission order.
pub open spec fn faces_upto_z(c: Chunk, x: int, y: int, z: int) -> Seq<FaceRef>
    decreases z,
{
    if z <= 0 {
        Seq::empty()
    } else {
        faces_upto_z(c, x, y, z - 1) + cell_faces(c, x, y, z - 1)
    }
}

/// The faces of the columns `(x, 0) .. (x, y)`, in emission order.
pub open spec fn faces_upto_y(c: Chunk, x: int, y: int) -> Seq<FaceRef>
    decreases y,
{
    if y <= 0 {
        Seq::empty()
    } else {
        faces_upto_y(c, x, y - 1) + faces_upto_z(c, x, y - 1, c.depth_spec())
    }
}

/// The faces of the slabs `0 .. x`, in emission order.
pub open spec fn faces_upto_x(c: Chunk, x: int) -> Seq<FaceRef>
    decreases x,
{
    if x <= 0 {
        Seq::empty()
    } else {
        faces_upto_x(c, x - 1) + faces_upto_y(c, x - 1, c.height_spec())
    }
}

/// Every visible face of the chunk, in emission order: cells are walked
/// `x` outermost, then `y`, then `z`, and each cell's faces in side order.
pub open spec fn chunk_faces(c: Chunk) -> Seq<FaceRef> {
    faces_upto_x(c, c.width_spec())
}

/// The four vertex positions of a face of the voxel whose world position is
/// `(wx, wy, wz)`, in half-voxel units.
pub open spec fn face_positions(wx: int, wy: int, wz: int, s: Side) -> Seq<(int, int, int)> {
    Seq::new(
        4,
        |k: int|
            (
                2 * wx + s.corner_offset(k).0,
                2 * wy + s.corner_offset(k).1,
                2 * wz + s.corner_offset(k).2,
            ),
    )
}

/// The four (identical) outward unit normals of a face.
pub open spec fn face_normals(s: Side) -> Seq<(int, int, int)> {
    Seq::new(4, |k: int| s.normal_spec())
}

/// The four texture coordinates of a face textured from atlas cell `cell`.
pub open spec fn face_uvs(cell: (int, int)) -> Seq<(int, int)> {
    Seq::new(4, |k: int| (cell.0 + uv_offset(k).0, cell.1 + uv_offset(k).1))
}

/// The six indices of a face whose four vertices start at `base`: the fixed
/// counter-clockwise fan `0,3,1 / 1,3,2` over those vertices.
pub open spec fn face_indices(base: int) -> Seq<int> {
    seq![base, base + 3, base + 1, base + 1, base + 3, base + 2]
}

/// `m` with one face appended: a face of side `s` of the voxel at world
/// position `(wx, wy, wz)`, textured from atlas cell `cell`.
pub open spec fn append_face_geometry(
    m: MeshModel,
    wx: int,
    wy: int,
    wz: int,
    s: Side,
    cell: (int, int),
) -> MeshModel {
    MeshModel {
        positions: m.positions + face_positions(wx, wy, wz, s),
        normals: m.normals + face_normals(s),
        uvs: m.uvs + face_uvs(cell),
        indices: m.indices + face_indices(m.positions.len() as int),
    }
}

/// The atlas cell of side `s` in material `m`.
pub open spec fn material_cell(m: MaterialDescriptor, s: Side) -> AtlasCell {
    match s {
        Side::Top => m.top,
        Side::Bottom => m.bottom,
        Side::Forward => m.forward,
        Side::Back => m.back,
        Side::Left => m.left,
        Side::Right => m.right,
    }
}

/// The atlas cell face `f` is textured from, given the material table `reg`.
pub open spec fn face_cell(c: Chunk, reg: Seq<MaterialDescriptor>, f: FaceRef) -> (int, int) {
    match c.voxel_at(f.x, f.y, f.z) {
        Some(v) => {
            let cell = material_cell(reg[v.block_type.id_spec()], f.side);
            (cell.x as int, cell.y as int)
        },
        None => (0, 0),
    }
}

/// The mesh of a face list: each face appended in order.
pub open spec fn mesh_from_faces(c: Chunk, reg: Seq<MaterialDescriptor>, faces: Seq<FaceRef>) -> MeshModel
    decreases faces.len(),
{
    if faces.len() == 0 {
        MeshModel::empty()
    } else {
        let f = faces.last();
        append_face_geometry(
            mesh_from_faces(c, reg, faces.drop_last()),
            c.origin_spec().x + f.x,
            c.origin_spec().y + f.y,
            c.origin_spec().z + f.z,
            f.side,
            face_cell(c, reg, f),
        )
    }
}

/// The mesh of the whole chunk: its visible faces in emission order.
pub open spec fn chunk_mesh(c: Chunk, reg: Seq<MaterialDescriptor>) -> MeshModel {
    mesh_from_faces(c, reg, chunk_faces(c))
}

/// Whether the voxel of cell `(x, y, z)`, if it meshes, has a registered
/// material.
pub open spec fn cell_registered(c: Chunk, reg: BlockRegistry, x: int, y: int, z: int) -> bool {
    c.voxel_at(x, y, z) matches Some(v) ==> (v.meshes_spec() ==> reg.registered(v.block_type))
}

/// Whether every meshing voxel of the chunk has a registered material.
pub open spec fn all_registered(c: Chunk, reg: BlockRegistry) -> bool {
    forall|x: int, y: int, z: int| #[trigger] cell_registered(c, reg, x, y, z)
}

/// The largest magnitude of a world coordinate a face may be emitted at;
/// doubling such a coordinate and adding a corner offset stays well inside
/// `i64`.
pub const MAX_WORLD: i64 = 0x200_0000_0000;

impl Mesh {
    /// An empty mesh.
    pub fn new() -> (r: Self)
        ensures
            r@ == MeshModel::empty(),
    {
        let r = Mesh { positions: Vec::new(), normals: Vec::new(), uvs: Vec::new(), indices: Vec::new() };
        proof {
            assert(r@.positions =~= MeshModel::empty().positions);
            assert(r@.normals =~= MeshModel::empty().normals);
            assert(r@.uvs =~= MeshModel::empty().uvs);
            assert(r@.indices =~= MeshModel::empty().indices);
            assert(r@ =~= MeshModel::empty());
        }
        r
    }

    /// The number of vertices of the mesh.
    pub fn vertex_count(&self) -> (r: usize)
        ensures
            r == self@.positions.len(),
    {
        self.positions.len()
    }

    /// The number of triangle indices of the mesh.
    pub fn index_count(&self) -> (r: usize)
        ensures
            r == self@.indices.len(),
    {
        self.indices.len()
    }

    /// Append one face: four corner vertices of the voxel at world position
    /// `(wx, wy, wz)` on side `side`, their common outward normal, the quad
    /// of atlas cell `cell`, and six indices fanning the new vertices
    /// counter-clockwise.
    fn push_face(&mut self, wx: i64, wy: i64, wz: i64, side: Side, cell: AtlasCell)
        requires
            -MAX_WORLD <= wx <= MAX_WORLD,
            -MAX_WORLD <= wy <= MAX_WORLD,
            -MAX_WORLD <= wz <= MAX_WORLD,
            old(self)@.positions.len() + 4 <= u32::MAX,
        ensures
            final(self)@ == append_face_geometry(
                old(self)@,
                wx as int,
                wy as int,
                wz as int,
                side,
                (cell.x as int, cell.y as int),
            ),
    {
        let base: u32 = self.positions.len() as u32;
        match side {
            Side::Top => {
                self.positions.push(Vec3i { x: 2 * wx - 1, y: 2 * wy + 1, z: 2 * wz - 1 });
                self.positions.push(Vec3i { x: 2 * wx + 1, y: 2 * wy + 1, z: 2 * wz - 1 });
                self.positions.push(Vec3i { x: 2 * wx + 1, y: 2 * wy + 1, z: 2 * wz + 1 });
                self.positions.push(Vec3i { x: 2 * wx - 1, y: 2 * wy + 1, z: 2 * wz + 1 });
                self.normals.push(Vec3i { x: 0, y: 1, z: 0 });
                self.normals.push(Vec3i { x: 0, y: 1, z: 0 });
                self.normals.push(Vec3i { x: 0, y: 1, z: 0 });
                self.normals.push(Vec3i { x: 0, y: 1, z: 0 });
            },
            Side::Bottom => {
                self.positions.push(Vec3i { x: 2 * wx - 1, y: 2 * wy - 1, z: 2 * wz + 1 });
                self.positions.push(Vec3i { x: 2 * wx + 1, y: 2 * wy - 1, z: 2 * wz + 1 });
                self.positions.push(Vec3i { x: 2 * wx + 1, y: 2 * wy - 1, z: 2 * wz - 1 });
                self.positions.push(Vec3i { x: 2 * wx - 1, y: 2 * wy - 1, z: 2 * wz - 1 });
                self.normals.push(Vec3i { x: 0, y: -1, z: 0 });
                self.normals.push(Vec3i { x: 0, y: -1, z: 0 });
                self.normals.push(Vec3i { x: 0, y: -1, z: 0 });
                self.normals.push(Vec3i { x: 0, y: -1, z: 0 });
            },
            Side::Forward => {
                self.positions.push(Vec3i { x: 2 * wx + 1, y: 2 * wy - 1, z: 2 * wz - 1 });
                self.positions.push(Vec3i { x: 2 * wx + 1, y: 2 * wy + 1, z: 2 * wz - 1 });
                self.positions.push(Vec3i { x: 2 * wx - 1, y: 2 * wy + 1, z: 2 * wz - 1 });
                self.positions.push(Vec3i { x: 2 * wx - 1, y: 2 * wy - 1, z: 2 * wz - 1 });
                self.normals.push(Vec3i { x: 0, y: 0, z: -1 });
                self.normals.push(Vec3i { x: 0, y: 0, z: -1 });
                self.normals.push(Vec3i { x: 0, y: 0, z: -1 });
                self.normals.push(Vec3i { x: 0, y: 0, z: -1 });
            },
            Side::Back => {
                self.positions.push(Vec3i { x: 2 * wx - 1, y: 2 * wy - 1, z: 2 * wz + 1 });
                self.positions.push(Vec3i { x: 2 * wx - 1, y: 2 * wy + 1, z: 2 * wz + 1 });
                self.positions.push(Vec3i { x: 2 * wx + 1, y: 2 * wy + 1, z: 2 * wz + 1 });
                self.positions.push(Vec3i { x: 2 * wx + 1, y: 2 * wy - 1, z: 2 * wz + 1 });
                self.normals.push(Vec3i { x: 0, y: 0, z: 1 });
                self.normals.push(Vec3i { x: 0, y: 0, z: 1 });
                self.normals.push(Vec3i { x: 0, y: 0, z: 1 });
                self.normals.push(Vec3i { x: 0, y: 0, z: 1 });
            },
            Side::Left => {
                self.positions.push(Vec3i { x: 2 * wx - 1, y: 2 * wy + 1, z: 2 * wz - 1 });
                self.positions.push(Vec3i { x: 2 * wx - 1, y: 2 * wy + 1, z: 2 * wz + 1 });
                self.positions.push(Vec3i { x: 2 * wx - 1, y: 2 * wy - 1, z: 2 * wz + 1 });
                self.positions.push(Vec3i { x: 2 * wx - 1, y: 2 * wy - 1, z: 2 * wz - 1 });
                self.normals.push(Vec3i { x: -1, y: 0, z: 0 });
                self.normals.push(Vec3i { x: -1, y: 0, z: 0 });
                self.normals.push(Vec3i { x: -1, y: 0, z: 0 });
                self.normals.push(Vec3i { x: -1, y: 0, z: 0 });
            },
            Side::Right => {
                self.positions.push(Vec3i { x: 2 * wx + 1, y: 2 * wy - 1, z: 2 * wz - 1 });
                self.positions.push(Vec3i { x: 2 * wx + 1, y: 2 * wy - 1, z: 2 * wz + 1 });
                self.positions.push(Vec3i { x: 2 * wx + 1, y: 2 * wy + 1, z: 2 * wz + 1 });
                self.positions.push(Vec3i { x: 2 * wx + 1, y: 2 * wy + 1, z: 2 * wz - 1 });
                self.normals.push(Vec3i { x: 1, y: 0, z: 0 });
                self.normals.push(Vec3i { x: 1, y: 0, z: 0 });
                self.normals.push(Vec3i { x: 1, y: 0, z: 0 });
                self.normals.push(Vec3i { x: 1, y: 0, z: 0 });
            },
        }
        self.uvs.push(Vec2i { x: cell.x as i64, y: cell.y as i64 + 1 });
        self.uvs.push(Vec2i { x: cell.x as i64 + 1, y: cell.y as i64 + 1 });
        self.uvs.push(Vec2i { x: cell.x as i64 + 1, y: cell.y as i64 });
        self.uvs.push(Vec2i { x: cell.x as i64, y: cell.y as i64 });
        self.indices.push(base);
        self.indices.push(base + 3);
        self.indices.push(base + 1);
        self.indices.push(base + 1);
        self.indices.push(base + 3);
        self.indices.push(base + 2);
        proof {
            let prev = old(self)@;
            let wxi = wx as int;
            let wyi = wy as int;
            let wzi = wz as int;
            assert(self@.positions =~= prev.positions + face_positions(wxi, wyi, wzi, side));
            assert(self@.normals =~= prev.normals + face_normals(side));
            assert(self@.uvs =~= prev.uvs + face_uvs((cell.x as int, cell.y as int)));
            assert(self@.indices =~= prev.indices + face_indices(prev.positions.len() as int));
            assert(self@ =~= append_face_geometry(
                prev,
                wxi,
                wyi,
                wzi,
                side,
                (cell.x as int, cell.y as int),
            ));
        }
    }
}

/// The buffer lengths of the mesh of a face list: four vertices and six
/// indices per face, the per-vertex buffers equally long.
pub proof fn lemma_mesh_from_faces_len(c: Chunk, reg: Seq<MaterialDescriptor>, faces: Seq<FaceRef>)
    ensures
        mesh_from_faces(c, reg, faces).positions.len() == 4 * faces.len(),
        mesh_from_faces(c, reg, faces).normals.len() == 4 * faces.len(),
        mesh_from_faces(c, reg, faces).uvs.len() == 4 * faces.len(),
        mesh_from_faces(c, reg, faces).indices.len() == 6 * faces.len(),
    decreases faces.len(),
{
    if faces.len() > 0 {
        lemma_mesh_from_faces_len(c, reg, faces.drop_last());
    }
}

/// Appending one face to a face list appends its geometry to the list's
/// mesh.
proof fn lemma_mesh_push(c: Chunk, reg: Seq<MaterialDescriptor>, faces: Seq<FaceRef>, f: FaceRef)
    ensures
        mesh_from_faces(c, reg, faces.push(f)) == append_face_geometry(
            mesh_from_faces(c, reg, faces),
            c.origin_spec().x + f.x,
            c.origin_spec().y + f.y,
            c.origin_spec().z + f.z,
            f.side,
            face_cell(c, reg, f),
        ),
{
    let s = faces.push(f);
    assert(s.drop_last() =~= faces);
    assert(s.last() == f);
}

/// A cell emits at most one face per examined side.
pub(crate) proof fn lemma_cell_faces_upto_len(c: Chunk, x: int, y: int, z: int, n: int)
    requires
        0 <= n,
    ensures
        cell_faces_upto(c, x, y, z, n).len() <= n,
    decreases n,
{
    if n > 0 {
        lemma_cell_faces_upto_len(c, x, y, z, n - 1);
    }
}

/// A run of `z` cells emits at most `6 * z` faces.
proof fn lemma_faces_upto_z_len(c: Chunk, x: int, y: int, z: int)
    requires
        0 <= z,
    ensures
        faces_upto_z(c, x, y, z).len() <= 6 * z,
    decreases z,
{
    if z > 0 {
        lemma_faces_upto_z_len(c, x, y, z - 1);
        lemma_cell_faces_upto_len(c, x, y, z - 1, 6);
    }
}

/// A run of `y` columns emits at most `6 * y * depth` faces.
proof fn lemma_faces_upto_y_len(c: Chunk, x: int, y: int)
    requires
        0 <= y,
        0 <= c.depth_spec(),
    ensures
        faces_upto_y(c, x, y).len() <= 6 * y * c.depth_spec(),
    decreases y,
{
    let d = c.depth_spec();
    if y > 0 {
        lemma_faces_upto_y_len(c, x, y - 1);
        lemma_faces_upto_z_len(c, x, y - 1, d);
        assert(6 * (y - 1) * d + 6 * d == 6 * y * d) by (nonlinear_arith);
    }
}

/// A run of `x` slabs emits at most `6 * x * height * depth` faces.
proof fn lemma_faces_upto_x_len(c: Chunk, x: int)
    requires
        0 <= x,
        0 <= c.height_spec(),
        0 <= c.depth_spec(),
    ensures
        faces_upto_x(c, x).len() <= 6 * x * (c.height_spec() * c.depth_spec()),
    decreases x,
{
    let h = c.height_spec();
    let d = c.depth_spec();
    if x > 0 {
        lemma_faces_upto_x_len(c, x - 1);
        lemma_faces_upto_y_len(c, x - 1, h);
        assert(6 * (x - 1) * (h * d) + 6 * h * d == 6 * x * (h * d)) by (nonlinear_arith);
    }
}

/// While cell `(x, y, z)` of a `w × h × d` grid is being processed, the
/// faces emitted so far number at most six per cell of the whole grid.
proof fn lemma_prefix_face_bound(w: int, h: int, d: int, x: int, y: int, z: int)
    by (nonlinear_arith)
    requires
        0 <= x < w,
        0 <= y < h,
        0 <= z < d,
    ensures
        6 * x * (h * d) + 6 * y * d + 6 * z + 6 <= 6 * (w * h * d),
{
}

/// A cell none of whose faces is visible emits nothing.
pub(crate) proof fn lemma_cell_faces_none(c: Chunk, x: int, y: int, z: int)
    requires
        forall|s: Side| !face_visible(c, x, y, z, s),
    ensures
        cell_faces(c, x, y, z) == Seq::<FaceRef>::empty(),
{
    assert(cell_faces_upto(c, x, y, z, 0) =~= Seq::<FaceRef>::empty());
    assert(cell_faces_upto(c, x, y, z, 1) =~= Seq::<FaceRef>::empty());
    assert(cell_faces_upto(c, x, y, z, 2) =~= Seq::<FaceRef>::empty());
    assert(cell_faces_upto(c, x, y, z, 3) =~= Seq::<FaceRef>::empty());
    assert(cell_faces_upto(c, x, y, z, 4) =~= Seq::<FaceRef>::empty());
    assert(cell_faces_upto(c, x, y, z, 5) =~= Seq::<FaceRef>::empty());
    assert(cell_faces_upto(c, x, y, z, 6) =~= Seq::<FaceRef>::empty());
}

/// The side at position `i` of the emission order.
fn side_from_index(i: usize) -> (s: Side)
    requires
        i < 6,
    ensures
        s == side_order()[i as int],
{
    if i == 0 {
        Side::Top
    } else if i == 1 {
        Side::Bottom
    } else if i == 2 {
        Side::Left
    } else if i == 3 {
        Side::Right
    } else if i == 4 {
        Side::Forward
    } else {
        Side::Back
    }
}

/// The atlas cell of side `side` in material `m`.
fn material_cell_for(m: &MaterialDescriptor, side: Side) -> (r: AtlasCell)
    ensures
        r == material_cell(*m, side),
{
    match side {
        Side::Top => m.top,
        Side::Bottom => m.bottom,
        Side::Forward => m.forward,
        Side::Back => m.back,
        Side::Left => m.left,
        Side::Right => m.right,
    }
}

/// Whether the neighbor on side `side` of cell `(x, y, z)` leaves that face
/// visible.
pub fn side_visible(chunk: &Chunk, x: usize, y: usize, z: usize, side: Side) -> (r: bool)
    requires
        chunk.wf(),
        chunk.in_bounds(x as int, y as int, z as int),
    ensures
        r == neighbor_clear(*chunk, x as int, y as int, z as int, side),
{
    let (dx, dy, dz): (i64, i64, i64) = match side {
        Side::Top => (0, 1, 0),
        Side::Bottom => (0, -1, 0),
        Side::Forward => (0, 0, -1),
        Side::Back => (0, 0, 1),
        Side::Left => (-1, 0, 0),
        Side::Right => (1, 0, 0),
    };
    let neighbor = chunk.get(Position::new(x as i64 + dx, y as i64 + dy, z as i64 + dz));
    match neighbor {
        Some(n) => !n.covers(),
        None => true,
    }
}

/// The sides of cell `(x, y, z)` whose faces are visible, in emission
/// order: the sides of that cell's entries in the face list.
pub open spec fn cell_sides(c: Chunk, x: int, y: int, z: int) -> Seq<Side> {
    cell_faces(c, x, y, z).map_values(|f: FaceRef| f.side)
}

/// The list of sides of `pos` whose faces the mesher would emit: empty when
/// the cell is absent, empty, or hidden, and otherwise the sides whose
/// neighbors do not occlude them.
pub fn visible_sides(chunk: &Chunk, pos: Position) -> (r: Vec<Side>)
    requires
        chunk.wf(),
    ensures
        r@ == cell_sides(*chunk, pos.x as int, pos.y as int, pos.z as int),
{
    let ghost c = *chunk;
    let ghost xi = pos.x as int;
    let ghost yi = pos.y as int;
    let ghost zi = pos.z as int;
    let mut sides: Vec<Side> = Vec::new();
    let meshing = match chunk.get(pos) {
        Some(b) => b.meshes(),
        None => false,
    };
    if !meshing {
        proof {
            assert forall|s: Side| !face_visible(c, xi, yi, zi, s) by {}
            lemma_cell_faces_none(c, xi, yi, zi);
            assert(sides@ =~= cell_sides(c, xi, yi, zi));
        }
        return sides;
    }
    let x = pos.x as usize;
    let y = pos.y as usize;
    let z = pos.z as usize;
    let mut si: usize = 0;
    while si < 6
        invariant
            si <= 6,
            chunk.wf(),
            c == *chunk,
            chunk.in_bounds(xi, yi, zi),
            x as int == xi && y as int == yi && z as int == zi,
            chunk.voxel_at(xi, yi, zi) matches Some(b) && b.meshes_spec(),
            sides@ == cell_faces_upto(c, xi, yi, zi, si as int).map_values(|f: FaceRef| f.side),
        decreases 6 - si,
    {
        let side = side_from_index(si);
        if side_visible(chunk, x, y, z, side) {
            sides.push(side);
            proof {
                let f = FaceRef { x: xi, y: yi, z: zi, side };
                assert(cell_faces_upto(c, xi, yi, zi, si as int + 1) == cell_faces_upto(
                    c,
                    xi,
                    yi,
                    zi,
                    si as int,
                ) + seq![f]);
                assert(sides@ =~= cell_faces_upto(c, xi, yi, zi, si as int + 1).map_values(
                    |f: FaceRef| f.side,
                ));
            }
        } else {
            proof {
                assert(cell_faces_upto(c, xi, yi, zi, si as int + 1) =~= cell_faces_upto(
                    c,
                    xi,
                    yi,
                    zi,
                    si as int,
                ));
            }
        }
        si = si + 1;
    }
    sides
}

/// The difference `a - b` of two integer vectors.
pub open spec fn vsub(a: (int, int, int), b: (int, int, int)) -> (int, int, int) {
    (a.0 - b.0, a.1 - b.1, a.2 - b.2)
}

/// The cross product of two integer vectors.
pub open spec fn vcross(a: (int, int, int), b: (int, int, int)) -> (int, int, int) {
    (a.1 * b.2 - a.2 * b.1, a.2 * b.0 - a.0 * b.2, a.0 * b.1 - a.1 * b.0)
}

/// The dot product of two integer vectors.
pub open spec fn vdot(a: (int, int, int), b: (int, int, int)) -> int {
    a.0 * b.0 + a.1 * b.1 + a.2 * b.2
}

/// Whether triangle `t` of the mesh winds counter-clockwise seen from the
/// direction its first vertex's normal points to: the triangle's oriented
/// area vector has a positive component along that normal.
pub open spec fn triangle_ccw(m: MeshModel, t: int) -> bool {
    let i0 = m.indices[3 * t];
    let i1 = m.indices[3 * t + 1];
    let i2 = m.indices[3 * t + 2];
    vdot(
        vcross(
            vsub(m.positions[i1], m.positions[i0]),
            vsub(m.positions[i2], m.positions[i0]),
        ),
        m.normals[i0],
    ) > 0
}

/// A well-formed mesh: the per-vertex buffers are equally long, the index
/// list splits into triangles, every index points at a vertex, and every
/// triangle winds counter-clockwise seen from outside.
pub open spec fn mesh_wf(m: MeshModel) -> bool {
    &&& m.normals.len() == m.positions.len()
    &&& m.uvs.len() == m.positions.len()
    &&& m.indices.len() % 3 == 0
    &&& forall|i: int| 0 <= i < m.indices.len() ==> 0 <= #[trigger] m.indices[i] < m.positions.len()
    &&& forall|t: int| 0 <= t < m.indices.len() / 3 ==> #[trigger] triangle_ccw(m, t)
}

/// Mesh the chunk: walk its cells in a fixed order, emit the geometry of
/// every visible face of every meshing voxel, and fail with
/// `InvalidBlockType` when a meshing voxel's block type has no registered
/// material.  An empty chunk yields a valid empty mesh.
#[verifier::loop_isolation(false)]
pub fn mesh_chunk(chunk: &Chunk, registry: &BlockRegistry) -> (r: Result<Mesh, VoxelError>)
    requires
        chunk.wf(),
    ensures
        (match r {
            Ok(m) => all_registered(*chunk, *registry) && m@ == chunk_mesh(
                *chunk,
                registry.materials_spec(),
            ),
            Err(e) => e == VoxelError::InvalidBlockType && !all_registered(*chunk, *registry),
        }),
{
    let ghost c = *chunk;
    let ghost regv = registry.materials_spec();
    let (width, height, depth) = chunk.dimensions();
    let origin = chunk.origin();
    let mut mesh = Mesh::new();
    let mut x: usize = 0;
    while x < width
        invariant
            x <= width,
            mesh@ == mesh_from_faces(c, regv, faces_upto_x(c, x as int)),
            forall|a: int, b: int, e: int|
                a < x ==> #[trigger] cell_registered(c, *registry, a, b, e),
        decreases width - x,
    {
        let ghost xi = x as int;
        let mut y: usize = 0;
        while y < height
            invariant
                y <= height,
                mesh@ == mesh_from_faces(
                    c,
                    regv,
                    faces_upto_x(c, xi) + faces_upto_y(c, xi, y as int),
                ),
                forall|a: int, b: int, e: int|
                    a < x || (a == xi && b < y) ==> #[trigger] cell_registered(c, *registry, a, b, e),
            decreases height - y,
        {
            let ghost yi = y as int;
            let mut z: usize = 0;
            while z < depth
                invariant
                    z <= depth,
                    mesh@ == mesh_from_faces(
                        c,
                        regv,
                        faces_upto_x(c, xi) + faces_upto_y(c, xi, yi) + faces_upto_z(c, xi, yi, z as int),
                    ),
                    forall|a: int, b: int, e: int|
                        a < x || (a == xi && b < y) || (a == xi && b == yi && e < z)
                            ==> #[trigger] cell_registered(c, *registry, a, b, e),
                decreases depth - z,
            {
                let ghost zi = z as int;
                let ghost prefix = faces_upto_x(c, xi) + faces_upto_y(c, xi, yi) + faces_upto_z(
                    c,
                    xi,
                    yi,
                    zi,
                );
                let vox = chunk.get(Position::new(x as i64, y as i64, z as i64));
                match vox {
                    None => {
                        proof {
                            lemma_cell_faces_none(c, xi, yi, zi);
                            assert(prefix + cell_faces(c, xi, yi, zi) =~= prefix);
                        }
                    },
                    Some(b) => {
                        if b.meshes() {
                            let desc = match registry.lookup(b.block_type) {
                                Ok(d) => d,
                                Err(_) => {
                                    proof {
                                        assert(!cell_registered(c, *registry, xi, yi, zi));
                                    }
                                    return Err(VoxelError::InvalidBlockType);
                                },
                            };
                            let mut si: usize = 0;
                            while si < 6
                                invariant
                                    si <= 6,
                                    mesh@ == mesh_from_faces(
                                        c,
                                        regv,
                                        prefix + cell_faces_upto(c, xi, yi, zi, si as int),
                                    ),
                                decreases 6 - si,
                            {
                                let side = side_from_index(si);
                                let ghost before = prefix + cell_faces_upto(c, xi, yi, zi, si as int);
                                if side_visible(chunk, x, y, z, side) {
                                    proof {
                                        lemma_mesh_from_faces_len(c, regv, before);
                                        lemma_faces_upto_x_len(c, xi);
                                        lemma_faces_upto_y_len(c, xi, yi);
                                        lemma_faces_upto_z_len(c, xi, yi, zi);
                                        lemma_cell_faces_upto_len(c, xi, yi, zi, si as int);
                                        lemma_prefix_face_bound(
                                            width as int,
                                            height as int,
                                            depth as int,
                                            xi,
                                            yi,
                                            zi,
                                        );
                                    }
                                    let wx: i64 = origin.x + x as i64;
                                    let wy: i64 = origin.y + y as i64;
                                    let wz: i64 = origin.z + z as i64;
                                    let cellv = material_cell_for(&desc, side);
                                    mesh.push_face(wx, wy, wz, side, cellv);
                                    proof {
                                        let f = FaceRef { x: xi, y: yi, z: zi, side };
                                        lemma_mesh_push(c, regv, before, f);
                                        assert(face_cell(c, regv, f) == (
                                            cellv.x as int,
                                            cellv.y as int,
                                        ));
                                        assert(cell_faces_upto(c, xi, yi, zi, si as int + 1)
                                            == cell_faces_upto(c, xi, yi, zi, si as int) + seq![f]);
                                        assert(before.push(f) =~= prefix + cell_faces_upto(
                                            c,
                                            xi,
                                            yi,
                                            zi,
                                            si as int + 1,
                                        ));
                                    }
                                } else {
                                    proof {
                                        assert(cell_faces_upto(c, xi, yi, zi, si as int + 1)
                                            =~= cell_faces_upto(c, xi, yi, zi, si as int));
                                    }
                                }
                                si = si + 1;
                            }
                            proof {
                                assert(cell_faces_upto(c, xi, yi, zi, 6) == cell_faces(c, xi, yi, zi));
                            }
                        } else {
                            proof {
                                lemma_cell_faces_none(c, xi, yi, zi);
                                assert(prefix + cell_faces(c, xi, yi, zi) =~= prefix);
                            }
                        }
                    },
                }
                proof {
                    assert(faces_upto_z(c, xi, yi, zi + 1) == faces_upto_z(c, xi, yi, zi)
                        + cell_faces(c, xi, yi, zi));
                    assert(prefix + cell_faces(c, xi, yi, zi) =~= faces_upto_x(c, xi) + faces_upto_y(
                        c,
                        xi,
                        yi,
                    ) + faces_upto_z(c, xi, yi, zi + 1));
                }
                z = z + 1;
            }
            proof {
                assert(faces_upto_y(c, xi, yi + 1) == faces_upto_y(c, xi, yi) + faces_upto_z(
                    c,
                    xi,
                    yi,
                    depth as int,
                ));
                assert(faces_upto_x(c, xi) + faces_upto_y(c, xi, yi) + faces_upto_z(
                    c,
                    xi,
                    yi,
                    depth as int,
                ) =~= faces_upto_x(c, xi) + faces_upto_y(c, xi, yi + 1));
            }
            y = y + 1;
        }
        proof {
            assert(faces_upto_x(c, xi + 1) == faces_upto_x(c, xi) + faces_upto_y(
                c,
                xi,
                height as int,
            ));
        }
        x = x + 1;
    }
    proof {
        assert forall|a: int, b: int, e: int| #[trigger] cell_registered(c, *registry, a, b, e) by {
            if c.in_bounds(a, b, e) {
                assert(a < width);
            }
        }
        assert(mesh@ == chunk_mesh(c, regv));
    }
    Ok(mesh)
}

} // verus!
