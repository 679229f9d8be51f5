//! The voxel grid: lattice positions, voxels, fixed-size chunks, and the
//! store that owns the chunks of a world.

use vstd::prelude::*;

use crate::block_types::BlockType;
use crate::VoxelError;

verus! {

/// An integer lattice position: a voxel cell or a chunk origin.
/// Equality is by exact component value.
#[derive(Clone, Copy, PartialEq, Eq, Structural, Hash, Debug)]
pub struct Position {
    pub x: i64,
    pub y: i64,
    pub z: i64,
}

impl Position {
    pub fn new(x: i64, y: i64, z: i64) -> (r: Self)
        ensures
            r == (Position { x, y, z }),
    {
        Self { x, y, z }
    }
}

/// One grid cell's content: a block type plus rendering flags, together with
/// the cell's position both relative to its chunk and in the world.
///
/// The position fields are determined by where the block sits in a chunk
/// (world position = chunk origin + local offset); `Chunk::set` fills them in
/// from the targeted cell, whatever the caller put there.
#[derive(Clone, Copy, PartialEq, Eq, Structural, Debug)]
pub struct Block {
    /// Position of the block relative to its chunk.
    pub local_position: Position,
    /// Position of the block in the world.
    pub absolute_position: Position,
    /// Whether the block participates in meshing at all.  A present,
    /// non-empty block that is not visible emits no faces of its own, but
    /// its opacity still occludes its neighbors' faces.
    pub is_visible: bool,
    /// The type of the block.
    pub block_type: BlockType,
    /// Whether the block lets its neighbors' shared faces show through.
    pub is_transparent: bool,
}

impl Block {
    /// A block with the given content and zeroed positions; `Chunk::set`
    /// overwrites the positions with those of the targeted cell.
    pub fn new(block_type: BlockType, is_visible: bool, is_transparent: bool) -> (r: Self)
        ensures
            r.block_type == block_type,
            r.is_visible == is_visible,
            r.is_transparent == is_transparent,
            r.local_position == (Position { x: 0, y: 0, z: 0 }),
            r.absolute_position == (Position { x: 0, y: 0, z: 0 }),
    {
        Self {
            local_position: Position { x: 0, y: 0, z: 0 },
            absolute_position: Position { x: 0, y: 0, z: 0 },
            is_visible,
            block_type,
            is_transparent,
        }
    }

    /// Whether this block occludes the face a neighbor shares with it: it
    /// must hold geometry (not `Empty`) and be opaque.
    pub open spec fn covers_spec(self) -> bool {
        self.block_type != BlockType::Empty && !self.is_transparent
    }

    /// Whether this block occludes the face a neighbor shares with it.
    pub fn covers(&self) -> (r: bool)
        ensures
            r == self.covers_spec(),
    {
        !self.block_type.is_empty() && !self.is_transparent
    }

    /// Whether this block emits faces of its own: it holds geometry and is
    /// marked visible.
    pub open spec fn meshes_spec(self) -> bool {
        self.block_type != BlockType::Empty && self.is_visible
    }

    /// Whether this block emits faces of its own.
    pub fn meshes(&self) -> (r: bool)
        ensures
            r == self.meshes_spec(),
    {
        !self.block_type.is_empty() && self.is_visible
    }
}

/// The largest number of cells a chunk may hold.  Bounding the volume keeps
/// every vertex index of an emitted mesh within `u32` and every coordinate
/// sum within `i64`.
pub const MAX_VOLUME: usize = 0x200_0000;

/// The largest magnitude a chunk origin component may have.  Together with
/// `MAX_VOLUME` it keeps doubled world coordinates well inside `i64`.
pub const MAX_ORIGIN: i64 = 0x100_0000_0000;

/// A fixed-size three-dimensional region of voxels: a mapping from in-bounds
/// lattice positions to blocks, plus the region's world-space origin.
///
/// Cells are stored densely; a cell is either absent (`None`, nothing was
/// ever stored there) or holds a block.  Positions outside `[0, dim)` per
/// axis are absent by definition.
pub struct Chunk {
    origin: Position,
    width: usize,
    height: usize,
    depth: usize,
    cells: Vec<Option<Block>>,
}

impl Chunk {
    /// The number of cells of a well-formed chunk.
    pub open spec fn volume_spec(self) -> int {
        self.width_spec() * self.height_spec() * self.depth_spec()
    }

    /// The private part of well-formedness: a cell for every in-bounds
    /// position, and every stored block carrying the positions of its cell.
    pub closed spec fn cells_wf(self) -> bool {
        &&& self.cells@.len() == self.volume_spec()
        &&& forall|x: int, y: int, z: int|
            self.in_bounds(x, y, z) ==> (#[trigger] self.voxel_at(x, y, z) matches Some(b) ==> b
                == self.placed_block(x, y, z, b.block_type, b.is_visible, b.is_transparent))
    }

    /// Structural validity: positive dimensions, bounded volume and origin,
    /// a cell for every in-bounds position, and every stored block carrying
    /// the positions of its cell.
    pub open spec fn wf(self) -> bool {
        &&& 1 <= self.width_spec()
        &&& 1 <= self.height_spec()
        &&& 1 <= self.depth_spec()
        &&& self.width_spec() <= MAX_VOLUME
        &&& self.height_spec() <= MAX_VOLUME
        &&& self.depth_spec() <= MAX_VOLUME
        &&& self.volume_spec() <= MAX_VOLUME
        &&& -MAX_ORIGIN <= self.origin_spec().x <= MAX_ORIGIN
        &&& -MAX_ORIGIN <= self.origin_spec().y <= MAX_ORIGIN
        &&& -MAX_ORIGIN <= self.origin_spec().z <= MAX_ORIGIN
        &&& self.cells_wf()
    }

    /// Whether `(x, y, z)` lies inside this chunk's extent.
    pub open spec fn in_bounds(self, x: int, y: int, z: int) -> bool {
        0 <= x < self.width_spec() && 0 <= y < self.height_spec() && 0 <= z < self.depth_spec()
    }

    /// The linear storage index of an in-bounds position.
    spec fn index_spec(self, x: int, y: int, z: int) -> int {
        (x * self.height_spec() + y) * self.depth_spec() + z
    }

    /// The cell at `(x, y, z)`: the stored block for an in-bounds position
    /// that holds one, `None` for an empty in-bounds cell and for every
    /// position outside the chunk.
    pub closed spec fn voxel_at(self, x: int, y: int, z: int) -> Option<Block> {
        if self.in_bounds(x, y, z) {
            self.cells@[self.index_spec(x, y, z)]
        } else {
            None
        }
    }

    /// A position outside the chunk holds no voxel.
    pub broadcast proof fn lemma_voxel_at_out_of_bounds(self, x: int, y: int, z: int)
        ensures
            !self.in_bounds(x, y, z) ==> #[trigger] self.voxel_at(x, y, z) is None,
    {
    }

    /// The block that cell `(x, y, z)` stores when given content is placed
    /// there: the content plus the cell's own local and world positions.
    pub open spec fn placed_block(
        self,
        x: int,
        y: int,
        z: int,
        block_type: BlockType,
        is_visible: bool,
        is_transparent: bool,
    ) -> Block {
        Block {
            local_position: Position { x: x as i64, y: y as i64, z: z as i64 },
            absolute_position: Position {
                x: (self.origin_spec().x + x) as i64,
                y: (self.origin_spec().y + y) as i64,
                z: (self.origin_spec().z + z) as i64,
            },
            is_visible,
            block_type,
            is_transparent,
        }
    }

    pub closed spec fn origin_spec(self) -> Position {
        self.origin
    }

    pub closed spec fn width_spec(self) -> int {
        self.width as int
    }

    pub closed spec fn height_spec(self) -> int {
        self.height as int
    }

    pub closed spec fn depth_spec(self) -> int {
        self.depth as int
    }

    /// A fresh chunk with the given origin and dimensions and every cell
    /// absent.
    pub fn new(origin: Position, width: usize, height: usize, depth: usize) -> (r: Self)
        requires
            1 <= width,
            1 <= height,
            1 <= depth,
            width * height * depth <= MAX_VOLUME,
            -MAX_ORIGIN <= origin.x <= MAX_ORIGIN,
            -MAX_ORIGIN <= origin.y <= MAX_ORIGIN,
            -MAX_ORIGIN <= origin.z <= MAX_ORIGIN,
        ensures
            r.wf(),
            r.origin_spec() == origin,
            r.width_spec() == width,
            r.height_spec() == height,
            r.depth_spec() == depth,
            forall|x: int, y: int, z: int| #[trigger] r.voxel_at(x, y, z) is None,
    {
        proof {
            lemma_dims_within_volume(width as int, height as int, depth as int);
        }
        let volume: usize = width * height * depth;
        let mut cells: Vec<Option<Block>> = Vec::new();
        let mut i: usize = 0;
        while i < volume
            invariant
                i <= volume,
                cells@.len() == i,
                forall|j: int| 0 <= j < i ==> cells@[j] is None,
            decreases volume - i,
        {
            cells.push(None);
            i = i + 1;
        }
        let chunk = Chunk { origin, width, height, depth, cells };
        proof {
            assert forall|x: int, y: int, z: int| #[trigger] chunk.voxel_at(x, y, z) is None by {
                if chunk.in_bounds(x, y, z) {
                    lemma_index_in_range(width as int, height as int, depth as int, x, y, z);
                }
            }
        }
        chunk
    }

    /// The chunk's dimensions `(width, height, depth)`.
    pub fn dimensions(&self) -> (r: (usize, usize, usize))
        ensures
            r.0 as int == self.width_spec(),
            r.1 as int == self.height_spec(),
            r.2 as int == self.depth_spec(),
    {
        (self.width, self.height, self.depth)
    }

    /// The chunk's world-space origin.
    pub fn origin(&self) -> (r: Position)
        ensures
            r == self.origin_spec(),
    {
        self.origin
    }

    /// The cell at `pos`, or `None` when the cell is empty or `pos` lies
    /// outside the chunk.
    pub fn get(&self, pos: Position) -> (r: Option<Block>)
        requires
            self.wf(),
        ensures
            r == self.voxel_at(pos.x as int, pos.y as int, pos.z as int),
    {
        if pos.x < 0 || pos.y < 0 || pos.z < 0 {
            return None;
        }
        if pos.x >= self.width as i64 || pos.y >= self.height as i64 || pos.z >= self.depth as i64 {
            return None;
        }
        let x = pos.x as usize;
        let y = pos.y as usize;
        let z = pos.z as usize;
        proof {
            lemma_index_in_range(
                self.width as int,
                self.height as int,
                self.depth as int,
                x as int,
                y as int,
                z as int,
            );
        }
        let i: usize = (x * self.height + y) * self.depth + z;
        self.cells[i]
    }

    /// Store `block` at the in-bounds position `(x, y, z)`, its position
    /// fields overwritten with the cell's.  Only the targeted cell changes.
    fn put(&mut self, x: usize, y: usize, z: usize, block: Block)
        requires
            old(self).wf(),
            old(self).in_bounds(x as int, y as int, z as int),
        ensures
            final(self).wf(),
            final(self).origin_spec() == old(self).origin_spec(),
            final(self).width_spec() == old(self).width_spec(),
            final(self).height_spec() == old(self).height_spec(),
            final(self).depth_spec() == old(self).depth_spec(),
            final(self).voxel_at(x as int, y as int, z as int) == Some(
                old(self).placed_block(
                    x as int,
                    y as int,
                    z as int,
                    block.block_type,
                    block.is_visible,
                    block.is_transparent,
                ),
            ),
            forall|a: int, b: int, c: int|
                !(a == x && b == y && c == z) ==> #[trigger] final(self).voxel_at(a, b, c) == old(
                    self,
                ).voxel_at(a, b, c),
    {
        proof {
            lemma_index_in_range(
                self.width as int,
                self.height as int,
                self.depth as int,
                x as int,
                y as int,
                z as int,
            );
        }
        let stored = Block {
            local_position: Position { x: x as i64, y: y as i64, z: z as i64 },
            absolute_position: Position {
                x: self.origin.x + x as i64,
                y: self.origin.y + y as i64,
                z: self.origin.z + z as i64,
            },
            is_visible: block.is_visible,
            block_type: block.block_type,
            is_transparent: block.is_transparent,
        };
        let i: usize = (x * self.height + y) * self.depth + z;
        self.cells[i] = Some(stored);
        proof {
            lemma_update_pointwise(*old(self), *self, x as int, y as int, z as int);
        }
    }

    /// Store `block` at `pos`: the targeted cell is set (its position fields
    /// those of the cell), every other cell is untouched, and a position
    /// outside the chunk is rejected with `OutOfBounds`.
    pub fn set(&mut self, pos: Position, block: Block) -> (r: Result<(), VoxelError>)
        requires
            old(self).wf(),
        ensures
            final(self).wf(),
            final(self).origin_spec() == old(self).origin_spec(),
            final(self).width_spec() == old(self).width_spec(),
            final(self).height_spec() == old(self).height_spec(),
            final(self).depth_spec() == old(self).depth_spec(),
            r is Ok <==> old(self).in_bounds(pos.x as int, pos.y as int, pos.z as int),
            r is Err ==> r == Result::<(), VoxelError>::Err(VoxelError::OutOfBounds)
                && *final(self) == *old(self),
            r is Ok ==> final(self).voxel_at(pos.x as int, pos.y as int, pos.z as int) == Some(
                old(self).placed_block(
                    pos.x as int,
                    pos.y as int,
                    pos.z as int,
                    block.block_type,
                    block.is_visible,
                    block.is_transparent,
                ),
            ),
            forall|a: int, b: int, c: int|
                !(a == pos.x as int && b == pos.y as int && c == pos.z as int)
                    ==> #[trigger] final(self).voxel_at(a, b, c) == old(self).voxel_at(a, b, c),
    {
        if pos.x < 0 || pos.y < 0 || pos.z < 0 {
            return Err(VoxelError::OutOfBounds);
        }
        if pos.x >= self.width as i64 || pos.y >= self.height as i64 || pos.z >= self.depth as i64 {
            return Err(VoxelError::OutOfBounds);
        }
        self.put(pos.x as usize, pos.y as usize, pos.z as usize, block);
        Ok(())
    }

    /// A chunk of the given origin and dimensions with every cell holding a
    /// block of the given content: the world-generation fill.
    pub fn filled(
        origin: Position,
        width: usize,
        height: usize,
        depth: usize,
        block_type: BlockType,
        is_visible: bool,
        is_transparent: bool,
    ) -> (r: Self)
        requires
            1 <= width,
            1 <= height,
            1 <= depth,
            width * height * depth <= MAX_VOLUME,
            -MAX_ORIGIN <= origin.x <= MAX_ORIGIN,
            -MAX_ORIGIN <= origin.y <= MAX_ORIGIN,
            -MAX_ORIGIN <= origin.z <= MAX_ORIGIN,
        ensures
            r.wf(),
            r.origin_spec() == origin,
            r.width_spec() == width,
            r.height_spec() == height,
            r.depth_spec() == depth,
            forall|x: int, y: int, z: int|
                r.in_bounds(x, y, z) ==> #[trigger] r.voxel_at(x, y, z) == Some(
                    r.placed_block(x, y, z, block_type, is_visible, is_transparent),
                ),
    {
        let mut chunk = Chunk::new(origin, width, height, depth);
        let content = Block::new(block_type, is_visible, is_transparent);
        let mut x: usize = 0;
        while x < width
            invariant
                x <= width,
                chunk.wf(),
                chunk.origin_spec() == origin,
                chunk.width_spec() == width,
                chunk.height_spec() == height,
                chunk.depth_spec() == depth,
                content.block_type == block_type,
                content.is_visible == is_visible,
                content.is_transparent == is_transparent,
                forall|a: int, b: int, c: int|
                    chunk.in_bounds(a, b, c) ==> #[trigger] chunk.voxel_at(a, b, c) == (if a < x {
                        Some(chunk.placed_block(a, b, c, block_type, is_visible, is_transparent))
                    } else {
                        None
                    }),
            decreases width - x,
        {
            let mut y: usize = 0;
            while y < height
                invariant
                    x < width,
                    y <= height,
                    chunk.wf(),
                    chunk.origin_spec() == origin,
                    chunk.width_spec() == width,
                    chunk.height_spec() == height,
                    chunk.depth_spec() == depth,
                    content.block_type == block_type,
                    content.is_visible == is_visible,
                    content.is_transparent == is_transparent,
                    forall|a: int, b: int, c: int|
                        chunk.in_bounds(a, b, c) ==> #[trigger] chunk.voxel_at(a, b, c) == (if a
                            < x || (a == x && b < y) {
                            Some(
                                chunk.placed_block(a, b, c, block_type, is_visible, is_transparent),
                            )
                        } else {
                            None
                        }),
                decreases height - y,
            {
                let mut z: usize = 0;
                while z < depth
                    invariant
                        x < width,
                        y < height,
                        z <= depth,
                        chunk.wf(),
                        chunk.origin_spec() == origin,
                        chunk.width_spec() == width,
                        chunk.height_spec() == height,
                        chunk.depth_spec() == depth,
                        content.block_type == block_type,
                        content.is_visible == is_visible,
                        content.is_transparent == is_transparent,
                        forall|a: int, b: int, c: int|
                            chunk.in_bounds(a, b, c) ==> #[trigger] chunk.voxel_at(a, b, c) == (if a
                                < x || (a == x && b < y) || (a == x && b == y && c < z) {
                                Some(
                                    chunk.placed_block(
                                        a,
                                        b,
                                        c,
                                        block_type,
                                        is_visible,
                                        is_transparent,
                                    ),
                                )
                            } else {
                                None
                            }),
                    decreases depth - z,
                {
                    chunk.put(x, y, z, content);
                    z = z + 1;
                }
                y = y + 1;
            }
            x = x + 1;
        }
        chunk
    }
}

/// The store that owns the chunks of a world, one per chunk origin.
pub struct ChunkManager {
    chunks: Vec<Chunk>,
}

impl ChunkManager {
    /// The owned chunks, in insertion order.
    pub closed spec fn chunks_spec(self) -> Seq<Chunk> {
        self.chunks@
    }

    /// Validity: every chunk is well-formed and no two share an origin.
    pub open spec fn wf(self) -> bool {
        &&& forall|i: int|
            0 <= i < self.chunks_spec().len() ==> (#[trigger] self.chunks_spec()[i]).wf()
        &&& forall|i: int, j: int|
            0 <= i < self.chunks_spec().len() && 0 <= j < self.chunks_spec().len() && i != j
                ==> #[trigger] self.chunks_spec()[i].origin_spec()
                != #[trigger] self.chunks_spec()[j].origin_spec()
    }

    /// Whether some chunk has origin `o`.
    pub open spec fn has_chunk_at(self, o: Position) -> bool {
        exists|i: int|
            0 <= i < self.chunks_spec().len() && (#[trigger] self.chunks_spec()[i]).origin_spec()
                == o
    }

    /// The chunk with origin `o`; meaningful when `has_chunk_at(o)` and the
    /// store is well-formed, which makes that chunk unique.
    pub open spec fn chunk_at(self, o: Position) -> Chunk {
        self.chunks_spec()[choose|i: int|
            0 <= i < self.chunks_spec().len() && (#[trigger] self.chunks_spec()[i]).origin_spec()
                == o]
    }

    /// In a well-formed store, any index whose chunk has origin `o` is the
    /// one `chunk_at(o)` denotes.
    pub proof fn lemma_chunk_at_index(self, o: Position, i: int)
        requires
            self.wf(),
            0 <= i < self.chunks_spec().len(),
            self.chunks_spec()[i].origin_spec() == o,
        ensures
            self.has_chunk_at(o),
            self.chunk_at(o) == self.chunks_spec()[i],
    {
        let j = choose|j: int|
            0 <= j < self.chunks_spec().len() && (#[trigger] self.chunks_spec()[j]).origin_spec()
                == o;
        assert(j == i);
    }

    /// An empty store.
    pub fn new() -> (r: Self)
        ensures
            r.wf(),
            r.chunks_spec() == Seq::<Chunk>::empty(),
            forall|o: Position| !(#[trigger] r.has_chunk_at(o)),
    {
        let r = ChunkManager { chunks: Vec::new() };
        proof {
            assert(r.chunks@ =~= Seq::<Chunk>::empty());
        }
        r
    }

    /// The number of chunks in the store.
    pub fn len(&self) -> (r: usize)
        ensures
            r == self.chunks_spec().len(),
    {
        self.chunks.len()
    }

    /// Store `chunk` under its origin, replacing any chunk already there.
    /// Chunks at other origins are untouched.
    #[verifier::loop_isolation(false)]
    pub fn insert_chunk(&mut self, chunk: Chunk)
        requires
            old(self).wf(),
            chunk.wf(),
        ensures
            final(self).wf(),
            final(self).has_chunk_at(chunk.origin_spec()),
            final(self).chunk_at(chunk.origin_spec()) == chunk,
            forall|o: Position|
                o != chunk.origin_spec() ==> (#[trigger] final(self).has_chunk_at(o) <==> old(
                    self,
                ).has_chunk_at(o)),
            forall|o: Position|
                o != chunk.origin_spec() && old(self).has_chunk_at(o)
                    ==> #[trigger] final(self).chunk_at(o) == old(self).chunk_at(o),
    {
        let ghost prev = *self;
        let origin = chunk.origin();
        let mut i: usize = 0;
        let n = self.chunks.len();
        while i < n
            invariant
                *self == prev,
                n == self.chunks@.len(),
                i <= n,
                forall|k: int|
                    0 <= k < i ==> (#[trigger] self.chunks@[k]).origin_spec()
                        != chunk.origin_spec(),
                chunk.origin_spec() == origin,
            decreases n - i,
        {
            let found = {
                let c = &self.chunks[i];
                let co = c.origin();
                co.x == origin.x && co.y == origin.y && co.z == origin.z
            };
            if found {
                self.chunks[i] = chunk;
                proof {
                    Self::lemma_replace_at(prev, *self, chunk, i as int);
                }
                return ;
            }
            i = i + 1;
        }
        self.chunks.push(chunk);
        proof {
            Self::lemma_append_new(prev, *self, chunk);
        }
    }

    /// After the chunk at index `i`, which shared `chunk`'s origin, was
    /// replaced by `chunk`, the store is well-formed, holds `chunk` at that
    /// origin, and is unchanged at every other origin.
    proof fn lemma_replace_at(prev: ChunkManager, cur: ChunkManager, chunk: Chunk, i: int)
        requires
            prev.wf(),
            chunk.wf(),
            0 <= i < prev.chunks_spec().len(),
            prev.chunks_spec()[i].origin_spec() == chunk.origin_spec(),
            cur.chunks_spec() == prev.chunks_spec().update(i, chunk),
        ensures
            cur.wf(),
            cur.has_chunk_at(chunk.origin_spec()),
            cur.chunk_at(chunk.origin_spec()) == chunk,
            forall|o: Position|
                o != chunk.origin_spec() ==> (#[trigger] cur.has_chunk_at(o)
                    <==> prev.has_chunk_at(o)),
            forall|o: Position|
                o != chunk.origin_spec() && prev.has_chunk_at(o) ==> #[trigger] cur.chunk_at(o)
                    == prev.chunk_at(o),
    {
        assert(cur.chunks_spec().len() == prev.chunks_spec().len());
        assert forall|k: int| 0 <= k < cur.chunks_spec().len() implies (#[trigger] cur.chunks_spec()[k]).wf() by {
            if k != i {
                assert(cur.chunks_spec()[k] == prev.chunks_spec()[k]);
            }
        }
        assert(cur.wf());
        cur.lemma_chunk_at_index(chunk.origin_spec(), i);
        assert forall|o: Position|
            o != chunk.origin_spec() implies (#[trigger] cur.has_chunk_at(o)
            <==> prev.has_chunk_at(o)) by {
            if cur.has_chunk_at(o) {
                let k = choose|k: int|
                    0 <= k < cur.chunks_spec().len() && (#[trigger] cur.chunks_spec()[k]).origin_spec() == o;
                assert(k != i);
                assert(prev.chunks_spec()[k].origin_spec() == o);
            }
            if prev.has_chunk_at(o) {
                let k = choose|k: int|
                    0 <= k < prev.chunks_spec().len() && (#[trigger] prev.chunks_spec()[k]).origin_spec() == o;
                assert(k != i);
                assert(cur.chunks_spec()[k].origin_spec() == o);
            }
        }
        assert forall|o: Position|
            o != chunk.origin_spec() && prev.has_chunk_at(o) implies #[trigger] cur.chunk_at(o)
            == prev.chunk_at(o) by {
            let k = choose|k: int|
                0 <= k < prev.chunks_spec().len() && (#[trigger] prev.chunks_spec()[k]).origin_spec() == o;
            assert(k != i);
            assert(cur.chunks_spec()[k].origin_spec() == o);
            prev.lemma_chunk_at_index(o, k);
            cur.lemma_chunk_at_index(o, k);
        }
    }

    /// After `chunk`, whose origin no stored chunk shared, was appended, the
    /// store is well-formed, holds `chunk` at its origin, and is unchanged
    /// at every other origin.
    proof fn lemma_append_new(prev: ChunkManager, cur: ChunkManager, chunk: Chunk)
        requires
            prev.wf(),
            chunk.wf(),
            forall|k: int|
                0 <= k < prev.chunks_spec().len() ==> (#[trigger] prev.chunks_spec()[k]).origin_spec() != chunk.origin_spec(),
            cur.chunks_spec() == prev.chunks_spec().push(chunk),
        ensures
            cur.wf(),
            cur.has_chunk_at(chunk.origin_spec()),
            cur.chunk_at(chunk.origin_spec()) == chunk,
            forall|o: Position|
                o != chunk.origin_spec() ==> (#[trigger] cur.has_chunk_at(o)
                    <==> prev.has_chunk_at(o)),
            forall|o: Position|
                o != chunk.origin_spec() && prev.has_chunk_at(o) ==> #[trigger] cur.chunk_at(o)
                    == prev.chunk_at(o),
    {
        let n = prev.chunks_spec().len() as int;
        assert(cur.chunks_spec().len() == n + 1);
        assert(cur.chunks_spec()[n] == chunk);
        assert forall|k: int| 0 <= k < cur.chunks_spec().len() implies (#[trigger] cur.chunks_spec()[k]).wf() by {
            if k < n {
                assert(cur.chunks_spec()[k] == prev.chunks_spec()[k]);
            }
        }
        assert(cur.wf());
        cur.lemma_chunk_at_index(chunk.origin_spec(), n);
        assert forall|o: Position|
            o != chunk.origin_spec() implies (#[trigger] cur.has_chunk_at(o)
            <==> prev.has_chunk_at(o)) by {
            if cur.has_chunk_at(o) {
                let k = choose|k: int|
                    0 <= k < cur.chunks_spec().len() && (#[trigger] cur.chunks_spec()[k]).origin_spec() == o;
                assert(k != n);
                assert(prev.chunks_spec()[k].origin_spec() == o);
            }
            if prev.has_chunk_at(o) {
                let k = choose|k: int|
                    0 <= k < prev.chunks_spec().len() && (#[trigger] prev.chunks_spec()[k]).origin_spec() == o;
                assert(cur.chunks_spec()[k].origin_spec() == o);
            }
        }
        assert forall|o: Position|
            o != chunk.origin_spec() && prev.has_chunk_at(o) implies #[trigger] cur.chunk_at(o)
            == prev.chunk_at(o) by {
            let k = choose|k: int|
                0 <= k < prev.chunks_spec().len() && (#[trigger] prev.chunks_spec()[k]).origin_spec() == o;
            assert(cur.chunks_spec()[k].origin_spec() == o);
            prev.lemma_chunk_at_index(o, k);
            cur.lemma_chunk_at_index(o, k);
        }
    }

    /// The chunk stored under origin `o`, or `None` when there is none.
    pub fn get_chunk(&self, o: Position) -> (r: Option<&Chunk>)
        requires
            self.wf(),
        ensures
            match r {
                Some(c) => self.has_chunk_at(o) && *c == self.chunk_at(o),
                None => !self.has_chunk_at(o),
            },
    {
        let mut i: usize = 0;
        let n = self.chunks.len();
        while i < n
            invariant
                self.wf(),
                n == self.chunks_spec().len(),
                i <= n,
                forall|k: int|
                    0 <= k < i ==> (#[trigger] self.chunks_spec()[k]).origin_spec() != o,
            decreases n - i,
        {
            let c = &self.chunks[i];
            let co = c.origin();
            if co.x == o.x && co.y == o.y && co.z == o.z {
                proof {
                    self.lemma_chunk_at_index(o, i as int);
                }
                return Some(c);
            }
            i = i + 1;
        }
        proof {
            assert(!self.has_chunk_at(o));
        }
        None
    }
}

/// After one cell of `prev` was overwritten to give `cur`, every other cell
/// reads as before.
proof fn lemma_update_pointwise(prev: Chunk, cur: Chunk, x: int, y: int, z: int)
    requires
        prev.in_bounds(x, y, z),
        prev.cells@.len() == prev.volume_spec(),
        cur.origin == prev.origin,
        cur.width == prev.width,
        cur.height == prev.height,
        cur.depth == prev.depth,
        cur.cells@.len() == prev.cells@.len(),
        forall|j: int|
            0 <= j < prev.cells@.len() && j != prev.index_spec(x, y, z) ==> #[trigger] cur.cells@[j]
                == prev.cells@[j],
    ensures
        forall|a: int, b: int, c: int|
            !(a == x && b == y && c == z) ==> #[trigger] cur.voxel_at(a, b, c) == prev.voxel_at(
                a,
                b,
                c,
            ),
{
    assert forall|a: int, b: int, c: int|
        !(a == x && b == y && c == z) implies #[trigger] cur.voxel_at(a, b, c) == prev.voxel_at(
        a,
        b,
        c,
    ) by {
        if prev.in_bounds(a, b, c) {
            lemma_index_in_range(prev.width as int, prev.height as int, prev.depth as int, a, b, c);
            lemma_index_injective(
                prev.width as int,
                prev.height as int,
                prev.depth as int,
                a,
                b,
                c,
                x,
                y,
                z,
            );
            assert(cur.index_spec(a, b, c) == prev.index_spec(a, b, c));
            assert(prev.index_spec(a, b, c) != prev.index_spec(x, y, z));
            assert(cur.cells@[prev.index_spec(a, b, c)] == prev.cells@[prev.index_spec(a, b, c)]);
        }
    }
}

/// Each dimension of a grid, and each product of two of them, is at most the
/// grid's volume.
proof fn lemma_dims_within_volume(w: int, h: int, d: int)
    by (nonlinear_arith)
    requires
        1 <= w,
        1 <= h,
        1 <= d,
    ensures
        w <= w * h * d,
        h <= w * h * d,
        d <= w * h * d,
        w * h <= w * h * d,
{
}

/// The linear index of an in-bounds position lies below the volume, as does
/// the intermediate row index.
proof fn lemma_index_in_range(w: int, h: int, d: int, x: int, y: int, z: int)
    by (nonlinear_arith)
    requires
        0 <= x < w,
        0 <= y < h,
        0 <= z < d,
    ensures
        0 <= (x * h + y) * d + z < w * h * d,
        0 <= x * h + y < w * h * d,
{
}

/// Distinct in-bounds positions have distinct linear indices.
proof fn lemma_index_injective(w: int, h: int, d: int, x: int, y: int, z: int, a: int, b: int, c: int)
    by (nonlinear_arith)
    requires
        0 <= x < w,
        0 <= y < h,
        0 <= z < d,
        0 <= a < w,
        0 <= b < h,
        0 <= c < d,
        !(x == a && y == b && z == c),
    ensures
        (x * h + y) * d + z != (a * h + b) * d + c,
{
}

} // verus!
