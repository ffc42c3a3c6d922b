//! Dense voxel chunks and their face-culled meshes.
//!
//! A chunk is exactly 16 x 128 x 16 blocks, indexed `(y * 16 + z) * 16 + x`,
//! with a dirty flag that any block write sets and only a successful mesh
//! rebuild clears. The mesh is one quad (four vertices, six indices) per
//! exposed face: a face whose neighbouring voxel is air, or which lies on the
//! chunk boundary. Vertex texture coordinates are sixteenths of the texture
//! atlas; the rendering layer divides by the atlas size.

use vstd::prelude::*;

use crate::block::Block;

verus! {

/// Chunk coordinate of a world coordinate: the world coordinate divided by
/// 16, rounded toward negative infinity.
pub open spec fn spec_chunk_coord(v: int) -> int {
    v / 16
}

/// Chunk-relative offset of a world coordinate, always in `0..16`.
pub open spec fn spec_chunk_relative(v: int) -> int {
    v % 16
}

/// A world coordinate splits into 16 times its chunk coordinate plus its
/// chunk-relative offset.
pub proof fn lemma_coord_decompose(v: int)
    ensures
        v == 16 * spec_chunk_coord(v) + spec_chunk_relative(v),
        0 <= spec_chunk_relative(v) < 16,
{
    vstd::arithmetic::div_mod::lemma_fundamental_div_mod(v, 16);
}

/// Floor division of a world coordinate by 16.
fn floor_div_16(v: i32) -> (r: i32)
    ensures
        r == spec_chunk_coord(v as int),
{
    let d = v / 16;
    let m = v % 16;
    if v >= 0 || m == 0 {
        d
    } else {
        d - 1
    }
}

/// The chunk coordinates that own a world position.
pub fn to_chunk_pos(x: i32, z: i32) -> (r: (i32, i32))
    ensures
        r.0 == spec_chunk_coord(x as int),
        r.1 == spec_chunk_coord(z as int),
{
    (floor_div_16(x), floor_div_16(z))
}

/// The chunk-relative offsets of a world position, each in `0..16`.
pub fn world_to_chunk_relative(x: i32, z: i32) -> (r: (i32, i32))
    ensures
        r.0 == spec_chunk_relative(x as int),
        r.1 == spec_chunk_relative(z as int),
        0 <= r.0 < 16,
        0 <= r.1 < 16,
{
    ((16 + (x % 16)) % 16, (16 + (z % 16)) % 16)
}

/// One mesh vertex: a corner position inside the chunk and a texture-atlas
/// coordinate, both in integer units (the atlas coordinate in sixteenths).
#[derive(Debug, Clone, Copy, PartialEq, Eq, Structural)]
pub struct ChunkVertex {
    pub x: u8,
    pub y: u8,
    pub z: u8,
    pub u: u8,
    pub v: u8,
}

/// Per-face texture-atlas tiles of a solid block: for each of the six faces,
/// the column and row of its tile in the 16 x 16 atlas.
#[derive(Debug, Clone, Copy, PartialEq, Eq, Default)]
pub struct SolidBlockUv {
    pub pos_x: (u8, u8),
    pub neg_x: (u8, u8),
    pub pos_y: (u8, u8),
    pub neg_y: (u8, u8),
    pub pos_z: (u8, u8),
    pub neg_z: (u8, u8),
}

/// How a block is modelled for rendering. Only solid cubes exist.
#[derive(Debug, Clone, Copy, PartialEq, Eq)]
pub enum BlockModel {
    Solid(SolidBlockUv),
}

impl SolidBlockUv {
    /// The same atlas tile on all six faces.
    pub fn all(u: u8, v: u8) -> (r: BlockModel)
        ensures
            r == BlockModel::Solid(
                SolidBlockUv {
                    pos_x: (u, v),
                    neg_x: (u, v),
                    pos_y: (u, v),
                    neg_y: (u, v),
                    pos_z: (u, v),
                    neg_z: (u, v),
                },
            ),
    {
        let uv = (u, v);
        BlockModel::Solid(
            SolidBlockUv { pos_x: uv, neg_x: uv, pos_y: uv, neg_y: uv, pos_z: uv, neg_z: uv },
        )
    }

    /// Distinct tiles on top and bottom, one tile on the four sides.
    pub fn top_side_bottom(top_u: u8, top_v: u8, side_u: u8, side_v: u8, bottom_u: u8, bottom_v: u8) -> (r:
        BlockModel)
        ensures
            r == BlockModel::Solid(
                SolidBlockUv {
                    pos_x: (side_u, side_v),
                    neg_x: (side_u, side_v),
                    pos_y: (top_u, top_v),
                    neg_y: (bottom_u, bottom_v),
                    pos_z: (side_u, side_v),
                    neg_z: (side_u, side_v),
                },
            ),
    {
        let side = (side_u, side_v);
        BlockModel::Solid(
            SolidBlockUv {
                pos_x: side,
                neg_x: side,
                pos_y: (top_u, top_v),
                neg_y: (bottom_u, bottom_v),
                pos_z: side,
                neg_z: side,
            },
        )
    }
}

impl Block {
    /// The atlas tiles of each solid material. Air has no face model at all.
    pub open spec fn spec_model(self) -> SolidBlockUv {
        match self {
            Block::Air => SolidBlockUv {
                pos_x: (0, 0),
                neg_x: (0, 0),
                pos_y: (0, 0),
                neg_y: (0, 0),
                pos_z: (0, 0),
                neg_z: (0, 0),
            },
            Block::Stone => SolidBlockUv {
                pos_x: (1, 0),
                neg_x: (1, 0),
                pos_y: (1, 0),
                neg_y: (1, 0),
                pos_z: (1, 0),
                neg_z: (1, 0),
            },
            Block::Grass => SolidBlockUv {
                pos_x: (3, 0),
                neg_x: (3, 0),
                pos_y: (0, 0),
                neg_y: (2, 0),
                pos_z: (3, 0),
                neg_z: (3, 0),
            },
            Block::Dirt => SolidBlockUv {
                pos_x: (2, 0),
                neg_x: (2, 0),
                pos_y: (2, 0),
                neg_y: (2, 0),
                pos_z: (2, 0),
                neg_z: (2, 0),
            },
            Block::Cobblestone => SolidBlockUv {
                pos_x: (0, 1),
                neg_x: (0, 1),
                pos_y: (0, 1),
                neg_y: (0, 1),
                pos_z: (0, 1),
                neg_z: (0, 1),
            },
            Block::Planks => SolidBlockUv {
                pos_x: (4, 0),
                neg_x: (4, 0),
                pos_y: (4, 0),
                neg_y: (4, 0),
                pos_z: (4, 0),
                neg_z: (4, 0),
            },
        }
    }

    /// The face model of a solid block. Air never has one, which the caller
    /// must have ruled out.
    pub fn model(self) -> (r: BlockModel)
        requires
            self.spec_is_solid(),
        ensures
            r == BlockModel::Solid(self.spec_model()),
    {
        match self {
            Block::Air => {
                proof {
                    assert(false);
                }
                SolidBlockUv::all(0, 0)
            },
            Block::Stone => SolidBlockUv::all(1, 0),
            Block::Grass => SolidBlockUv::top_side_bottom(0, 0, 3, 0, 2, 0),
            Block::Dirt => SolidBlockUv::all(2, 0),
            Block::Cobblestone => SolidBlockUv::all(0, 1),
            Block::Planks => SolidBlockUv::all(4, 0),
        }
    }
}

/// Index of a voxel in the dense block array.
pub open spec fn block_index(x: int, y: int, z: int) -> int {
    (y * 16 + z) * 16 + x
}

/// The mesh of one chunk, ready to hand to a rendering collaborator.
#[derive(Debug, Clone, PartialEq)]
pub struct MeshData {
    pub vertices: Vec<ChunkVertex>,
    pub indices: Vec<u32>,
}

/// A dense 16 x 128 x 16 voxel grid with a cached mesh, a dirty flag, and a
/// render-slot reference (`uniform_index` absent while the chunk is not
/// visible).
pub struct Chunk {
    blocks: Vec<Block>,
    mesh: Option<MeshData>,
    mesh_outdated: bool,
    uniform_offset: u32,
    uniform_index: Option<usize>,
    chunk_x: i32,
    chunk_z: i32,
}

impl Chunk {
    /// The blocks as the spec sees them.
    pub closed spec fn spec_blocks(&self) -> Seq<Block> {
        self.blocks@
    }

    pub closed spec fn spec_dirty(&self) -> bool {
        self.mesh_outdated
    }

    pub closed spec fn spec_mesh(&self) -> Option<MeshData> {
        self.mesh
    }

    pub closed spec fn spec_chunk_x(&self) -> i32 {
        self.chunk_x
    }

    pub closed spec fn spec_uniform_offset(&self) -> u32 {
        self.uniform_offset
    }

    pub closed spec fn spec_uniform_index(&self) -> Option<usize> {
        self.uniform_index
    }

    pub closed spec fn spec_chunk_z(&self) -> i32 {
        self.chunk_z
    }

    /// The grid always holds exactly 16 x 128 x 16 blocks.
    pub open spec fn wf(&self) -> bool {
        self.spec_blocks().len() == 32768
    }

    /// A fresh all-air chunk at the given chunk coordinates. It starts dirty
    /// and without a mesh.
    pub fn new(x: i32, z: i32, uniform_offset: u32, uniform_index: Option<usize>) -> (r: Chunk)
        ensures
            r.wf(),
            r.spec_blocks() == Seq::new(32768nat, |i: int| Block::Air),
            r.spec_mesh() is None,
            r.spec_dirty(),
            r.spec_uniform_offset() == uniform_offset,
            r.spec_uniform_index() == uniform_index,
            r.spec_chunk_x() == x,
            r.spec_chunk_z() == z,
    {
        let mut blocks: Vec<Block> = Vec::new();
        let mut i: usize = 0;
        while i < 32768
            invariant
                i <= 32768,
                blocks@ =~= Seq::new(i as nat, |t: int| Block::Air),
            decreases 32768 - i,
        {
            blocks.push(Block::Air);
            proof {
                assert(blocks@ =~= Seq::new((i + 1) as nat, |t: int| Block::Air));
            }
            i = i + 1;
        }
        Chunk {
            blocks,
            mesh: None,
            mesh_outdated: true,
            uniform_offset,
            uniform_index,
            chunk_x: x,
            chunk_z: z,
        }
    }

    /// Reads one voxel.
    pub fn block(&self, x: usize, y: usize, z: usize) -> (r: Block)
        requires
            self.wf(),
            x < 16,
            y < 128,
            z < 16,
        ensures
            r == self.spec_blocks()[block_index(x as int, y as int, z as int)],
    {
        self.blocks[(y * 16 + z) * 16 + x]
    }

    /// Writes one voxel and marks the mesh stale.
    pub fn set_block(&mut self, x: usize, y: usize, z: usize, block: Block)
        requires
            old(self).wf(),
            x < 16,
            y < 128,
            z < 16,
        ensures
            final(self).wf(),
            final(self).spec_blocks() == old(self).spec_blocks().update(
                block_index(x as int, y as int, z as int),
                block,
            ),
            final(self).spec_dirty(),
            final(self).spec_mesh() == old(self).spec_mesh(),
            final(self).spec_uniform_offset() == old(self).spec_uniform_offset(),
            final(self).spec_uniform_index() == old(self).spec_uniform_index(),
            final(self).spec_chunk_x() == old(self).spec_chunk_x(),
            final(self).spec_chunk_z() == old(self).spec_chunk_z(),
    {
        self.mesh_outdated = true;
        self.blocks.set((y * 16 + z) * 16 + x, block);
    }

    /// The cached mesh, absent until the first rebuild.
    pub fn mesh(&self) -> (r: Option<&MeshData>)
        ensures
            match r {
                Some(m) => self.spec_mesh() == Some(*m),
                None => self.spec_mesh() is None,
            },
    {
        self.mesh.as_ref()
    }

    /// Whether a block write has outdated the cached mesh.
    pub fn needs_mesh_rebuild(&self) -> (r: bool)
        ensures
            r == self.spec_dirty(),
    {
        self.mesh_outdated
    }

    /// The render slot this chunk occupies, or `None` while it is not
    /// visible.
    pub fn slot_index(&self) -> (r: Option<usize>)
        ensures
            r == self.spec_uniform_index(),
    {
        self.uniform_index
    }

    /// The byte offset of this chunk's slot in the flat uniform staging
    /// buffer.
    pub fn slot_offset(&self) -> (r: u32)
        ensures
            r == self.spec_uniform_offset(),
    {
        self.uniform_offset
    }

    /// Points the chunk at a render slot, or at none.
    pub fn set_slot(&mut self, offset: u32, index: Option<usize>)
        ensures
            final(self).wf() == old(self).wf(),
            final(self).spec_uniform_offset() == offset,
            final(self).spec_uniform_index() == index,
            final(self).spec_blocks() == old(self).spec_blocks(),
            final(self).spec_mesh() == old(self).spec_mesh(),
            final(self).spec_dirty() == old(self).spec_dirty(),
            final(self).spec_chunk_x() == old(self).spec_chunk_x(),
            final(self).spec_chunk_z() == old(self).spec_chunk_z(),
    {
        self.uniform_offset = offset;
        self.uniform_index = index;
    }

    /// The chunk coordinates, from which the rendering layer derives the
    /// world-space translation (16 times each coordinate).
    pub fn coords(&self) -> (r: (i32, i32))
        ensures
            r.0 == self.spec_chunk_x(),
            r.1 == self.spec_chunk_z(),
    {
        (self.chunk_x, self.chunk_z)
    }
}

// ---------------------------------------------------------------------------
// Face-culled meshing. A voxel's face is emitted exactly when it is exposed:
// its neighbour in that direction is air, or it lies on the chunk boundary.
// Faces are enumerated in a fixed order (-x, +x, -y, +y, -z, +z), and each
// face is one quad: four vertices and six indices forming two triangles.
// ---------------------------------------------------------------------------

/// Whether face `f` of the voxel at `(x, y, z)` is exposed.
pub open spec fn face_exposed(blocks: Seq<Block>, x: int, y: int, z: int, f: int) -> bool {
    if f == 0 {
        x == 0 || blocks[block_index(x - 1, y, z)] == Block::Air
    } else if f == 1 {
        x == 15 || blocks[block_index(x + 1, y, z)] == Block::Air
    } else if f == 2 {
        y == 0 || blocks[block_index(x, y - 1, z)] == Block::Air
    } else if f == 3 {
        y == 127 || blocks[block_index(x, y + 1, z)] == Block::Air
    } else if f == 4 {
        z == 0 || blocks[block_index(x, y, z - 1)] == Block::Air
    } else {
        z == 15 || blocks[block_index(x, y, z + 1)] == Block::Air
    }
}

/// Every atlas tile leaves room for the far corner of its rectangle.
pub open spec fn uv_wf(uv: SolidBlockUv) -> bool {
    uv.pos_x.0 < 255 && uv.pos_x.1 < 255 && uv.neg_x.0 < 255 && uv.neg_x.1 < 255 && uv.pos_y.0
        < 255 && uv.pos_y.1 < 255 && uv.neg_y.0 < 255 && uv.neg_y.1 < 255 && uv.pos_z.0 < 255
        && uv.pos_z.1 < 255 && uv.neg_z.0 < 255 && uv.neg_z.1 < 255
}

/// A mesh vertex from integer coordinates.
pub open spec fn vert(x: int, y: int, z: int, u: int, v: int) -> ChunkVertex {
    ChunkVertex { x: x as u8, y: y as u8, z: z as u8, u: u as u8, v: v as u8 }
}

/// The four vertices of face `f` of the voxel at `(x, y, z)`, in the winding
/// order the renderer expects.
pub open spec fn face_quad(x: int, y: int, z: int, f: int, uv: SolidBlockUv) -> Seq<ChunkVertex> {
    if f == 0 {
        let u = uv.neg_x.0 as int;
        let v = uv.neg_x.1 as int;
        seq![
            vert(x, y, z, u + 1, v + 1),
            vert(x, y + 1, z, u + 1, v),
            vert(x, y + 1, z + 1, u, v),
            vert(x, y, z + 1, u, v + 1),
        ]
    } else if f == 1 {
        let u = uv.pos_x.0 as int;
        let v = uv.pos_x.1 as int;
        seq![
            vert(x + 1, y, z, u, v + 1),
            vert(x + 1, y, z + 1, u + 1, v + 1),
            vert(x + 1, y + 1, z + 1, u + 1, v),
            vert(x + 1, y + 1, z, u, v),
        ]
    } else if f == 2 {
        let u = uv.neg_y.0 as int;
        let v = uv.neg_y.1 as int;
        seq![
            vert(x, y, z, u, v),
            vert(x, y, z + 1, u, v + 1),
            vert(x + 1, y, z + 1, u + 1, v + 1),
            vert(x + 1, y, z, u + 1, v),
        ]
    } else if f == 3 {
        let u = uv.pos_y.0 as int;
        let v = uv.pos_y.1 as int;
        seq![
            vert(x, y + 1, z, u, v),
            vert(x + 1, y + 1, z, u + 1, v),
            vert(x + 1, y + 1, z + 1, u + 1, v + 1),
            vert(x, y + 1, z + 1, u, v + 1),
        ]
    } else if f == 4 {
        let u = uv.neg_z.0 as int;
        let v = uv.neg_z.1 as int;
        seq![
            vert(x, y, z, u, v + 1),
            vert(x + 1, y, z, u + 1, v + 1),
            vert(x + 1, y + 1, z, u + 1, v),
            vert(x, y + 1, z, u, v),
        ]
    } else {
        let u = uv.pos_z.0 as int;
        let v = uv.pos_z.1 as int;
        seq![
            vert(x, y, z + 1, u + 1, v + 1),
            vert(x, y + 1, z + 1, u + 1, v),
            vert(x + 1, y + 1, z + 1, u, v),
            vert(x + 1, y, z + 1, u, v + 1),
        ]
    }
}

/// The six indices of one quad whose first vertex sits at `base`.
pub open spec fn quad_indices(base: int) -> Seq<u32> {
    seq![
        base as u32,
        (base + 1) as u32,
        (base + 2) as u32,
        (base + 2) as u32,
        (base + 3) as u32,
        base as u32,
    ]
}

/// The vertices face `f` contributes: a quad if exposed, nothing otherwise.
pub open spec fn face_part(blocks: Seq<Block>, x: int, y: int, z: int, f: int, uv: SolidBlockUv) -> Seq<
    ChunkVertex,
> {
    if face_exposed(blocks, x, y, z, f) {
        face_quad(x, y, z, f, uv)
    } else {
        Seq::empty()
    }
}

/// The indices face `f` contributes when its quad starts at `base`.
pub open spec fn face_idx_part(
    blocks: Seq<Block>,
    x: int,
    y: int,
    z: int,
    f: int,
    base: int,
) -> Seq<u32> {
    if face_exposed(blocks, x, y, z, f) {
        quad_indices(base)
    } else {
        Seq::empty()
    }
}

/// One where a face is exposed, zero where it is not.
pub open spec fn exposed_1(blocks: Seq<Block>, x: int, y: int, z: int, f: int) -> int {
    if face_exposed(blocks, x, y, z, f) {
        1
    } else {
        0
    }
}

/// All vertices of one cube at `(x, y, z)`, faces in order.
pub open spec fn cube_vertices(blocks: Seq<Block>, x: int, y: int, z: int, uv: SolidBlockUv) -> Seq<
    ChunkVertex,
> {
    face_part(blocks, x, y, z, 0, uv) + face_part(blocks, x, y, z, 1, uv) + face_part(
        blocks,
        x,
        y,
        z,
        2,
        uv,
    ) + face_part(blocks, x, y, z, 3, uv) + face_part(blocks, x, y, z, 4, uv) + face_part(
        blocks,
        x,
        y,
        z,
        5,
        uv,
    )
}

/// All indices of one cube whose first quad starts at `base`.
pub open spec fn cube_indices(blocks: Seq<Block>, x: int, y: int, z: int, base: int, uv: SolidBlockUv) -> Seq<
    u32,
> {
    let e0 = exposed_1(blocks, x, y, z, 0);
    let e1 = exposed_1(blocks, x, y, z, 1);
    let e2 = exposed_1(blocks, x, y, z, 2);
    let e3 = exposed_1(blocks, x, y, z, 3);
    let e4 = exposed_1(blocks, x, y, z, 4);
    face_idx_part(blocks, x, y, z, 0, base) + face_idx_part(blocks, x, y, z, 1, base + 4 * e0)
        + face_idx_part(blocks, x, y, z, 2, base + 4 * (e0 + e1)) + face_idx_part(
        blocks,
        x,
        y,
        z,
        3,
        base + 4 * (e0 + e1 + e2),
    ) + face_idx_part(blocks, x, y, z, 4, base + 4 * (e0 + e1 + e2 + e3)) + face_idx_part(
        blocks,
        x,
        y,
        z,
        5,
        base + 4 * (e0 + e1 + e2 + e3 + e4),
    )
}

/// What the voxel at `(x, y, z)` contributes to the chunk mesh: nothing for
/// air, its exposed faces otherwise.
pub open spec fn voxel_vertices(blocks: Seq<Block>, x: int, y: int, z: int) -> Seq<ChunkVertex> {
    if blocks[block_index(x, y, z)] == Block::Air {
        Seq::empty()
    } else {
        cube_vertices(blocks, x, y, z, blocks[block_index(x, y, z)].spec_model())
    }
}

pub open spec fn voxel_indices(blocks: Seq<Block>, x: int, y: int, z: int, base: int) -> Seq<u32> {
    if blocks[block_index(x, y, z)] == Block::Air {
        Seq::empty()
    } else {
        cube_indices(blocks, x, y, z, base, blocks[block_index(x, y, z)].spec_model())
    }
}

/// The voxel visited at step `v` of the mesh scan, which walks `x`, then
/// `y`, then `z`.
pub open spec fn scan_x(v: int) -> int {
    v / 2048
}

pub open spec fn scan_y(v: int) -> int {
    (v % 2048) / 16
}

pub open spec fn scan_z(v: int) -> int {
    v % 16
}

/// The mesh vertices of the first `n` voxels in scan order.
pub open spec fn mesh_verts_upto(blocks: Seq<Block>, n: int) -> Seq<ChunkVertex>
    decreases n,
{
    if n <= 0 {
        Seq::empty()
    } else {
        mesh_verts_upto(blocks, n - 1) + voxel_vertices(
            blocks,
            scan_x(n - 1),
            scan_y(n - 1),
            scan_z(n - 1),
        )
    }
}

/// The mesh indices of the first `n` voxels in scan order.
pub open spec fn mesh_idx_upto(blocks: Seq<Block>, n: int) -> Seq<u32>
    decreases n,
{
    if n <= 0 {
        Seq::empty()
    } else {
        mesh_idx_upto(blocks, n - 1) + voxel_indices(
            blocks,
            scan_x(n - 1),
            scan_y(n - 1),
            scan_z(n - 1),
            mesh_verts_upto(blocks, n - 1).len() as int,
        )
    }
}

/// The whole chunk mesh.
pub open spec fn chunk_mesh_vertices(blocks: Seq<Block>) -> Seq<ChunkVertex> {
    mesh_verts_upto(blocks, 32768)
}

pub open spec fn chunk_mesh_indices(blocks: Seq<Block>) -> Seq<u32> {
    mesh_idx_upto(blocks, 32768)
}

/// A cube contributes four vertices per exposed face, at most 24.
pub proof fn lemma_cube_vertices_len(blocks: Seq<Block>, x: int, y: int, z: int, uv: SolidBlockUv)
    ensures
        cube_vertices(blocks, x, y, z, uv).len() == 4 * (exposed_1(blocks, x, y, z, 0) + exposed_1(
            blocks,
            x,
            y,
            z,
            1,
        ) + exposed_1(blocks, x, y, z, 2) + exposed_1(blocks, x, y, z, 3) + exposed_1(
            blocks,
            x,
            y,
            z,
            4,
        ) + exposed_1(blocks, x, y, z, 5)),
{
}

/// A prefix of the scan holds at most 24 vertices per voxel.
pub proof fn lemma_mesh_verts_upto_len(blocks: Seq<Block>, n: int)
    requires
        0 <= n,
    ensures
        mesh_verts_upto(blocks, n).len() <= 24 * n,
    decreases n,
{
    if n > 0 {
        lemma_mesh_verts_upto_len(blocks, n - 1);
        lemma_cube_vertices_len(
            blocks,
            scan_x(n - 1),
            scan_y(n - 1),
            scan_z(n - 1),
            blocks[block_index(scan_x(n - 1), scan_y(n - 1), scan_z(n - 1))].spec_model(),
        );
    }
}

/// Scan coordinates invert the voxel counter.
pub proof fn lemma_scan_coords(x: int, y: int, z: int)
    requires
        0 <= x < 16,
        0 <= y < 128,
        0 <= z < 16,
    ensures
        scan_x((x * 128 + y) * 16 + z) == x,
        scan_y((x * 128 + y) * 16 + z) == y,
        scan_z((x * 128 + y) * 16 + z) == z,
{
    let v = (x * 128 + y) * 16 + z;
    assert((x * 128 + y) * 16 + z == x * 2048 + (y * 16 + z)) by (nonlinear_arith);
    assert(0 <= y * 16 + z < 2048) by (nonlinear_arith)
        requires
            0 <= y < 128 && 0 <= z < 16,
    ;
    vstd::arithmetic::div_mod::lemma_fundamental_div_mod_converse(v, 2048, x, y * 16 + z);
    assert(v % 2048 == y * 16 + z);
    vstd::arithmetic::div_mod::lemma_fundamental_div_mod_converse(y * 16 + z, 16, y, z);
}

/// Appends one quad: four vertices and the six indices of its two
/// triangles, the first index pointing at the first new vertex.
fn push_quad(
    vertices: &mut Vec<ChunkVertex>,
    indices: &mut Vec<u32>,
    a: ChunkVertex,
    b: ChunkVertex,
    c: ChunkVertex,
    d: ChunkVertex,
)
    requires
        old(vertices)@.len() + 4 <= u32::MAX,
    ensures
        final(vertices)@ == old(vertices)@ + seq![a, b, c, d],
        final(indices)@ == old(indices)@ + quad_indices(old(vertices)@.len() as int),
{
    let n = vertices.len() as u32;
    vertices.push(a);
    vertices.push(b);
    vertices.push(c);
    vertices.push(d);
    indices.push(n);
    indices.push(n + 1);
    indices.push(n + 2);
    indices.push(n + 2);
    indices.push(n + 3);
    indices.push(n);
    proof {
        assert(final(vertices)@ =~= old(vertices)@ + seq![a, b, c, d]);
        assert(final(indices)@ =~= old(indices)@ + quad_indices(old(vertices)@.len() as int));
    }
}

impl Chunk {
    /// Appends the exposed faces of the cube at `(x, y, z)` to a mesh under
    /// construction: four vertices and six indices per face whose neighbour
    /// is air or lies off the edge of the chunk.
    /// Appends face `f` of the cube at `(x, y, z)` if it is exposed.
    #[verifier::spinoff_prover]
    fn emit_face(
        &self,
        x: usize,
        y: usize,
        z: usize,
        f: u8,
        vertices: &mut Vec<ChunkVertex>,
        indices: &mut Vec<u32>,
        solid: &SolidBlockUv,
    )
        requires
            self.wf(),
            x < 16,
            y < 128,
            z < 16,
            f < 6,
            uv_wf(*solid),
            old(vertices)@.len() + 4 <= u32::MAX,
        ensures
            final(vertices)@ == old(vertices)@ + face_part(
                self.spec_blocks(),
                x as int,
                y as int,
                z as int,
                f as int,
                *solid,
            ),
            final(indices)@ == old(indices)@ + face_idx_part(
                self.spec_blocks(),
                x as int,
                y as int,
                z as int,
                f as int,
                old(vertices)@.len() as int,
            ),
    {
        let xb = x as u8;
        let yb = y as u8;
        let zb = z as u8;
        match f {
            0 => {
                if x == 0 || matches!(self.block(x - 1, y, z), Block::Air) {
                    let (u, v) = solid.neg_x;
                    push_quad(
                        vertices,
                        indices,
                        ChunkVertex { x: xb, y: yb, z: zb, u: u + 1, v: v + 1 },
                        ChunkVertex { x: xb, y: yb + 1, z: zb, u: u + 1, v },
                        ChunkVertex { x: xb, y: yb + 1, z: zb + 1, u, v },
                        ChunkVertex { x: xb, y: yb, z: zb + 1, u, v: v + 1 },
                    );
                    proof {
                        assert(final(vertices)@ =~= old(vertices)@ + face_quad(
                            x as int,
                            y as int,
                            z as int,
                            0,
                            *solid,
                        ));
                    }
                } else {
                    proof {
                        assert(final(vertices)@ =~= old(vertices)@ + Seq::<ChunkVertex>::empty());
                        assert(final(indices)@ =~= old(indices)@ + Seq::<u32>::empty());
                    }
                }
            },
            1 => {
                if x == 15 || matches!(self.block(x + 1, y, z), Block::Air) {
                    let (u, v) = solid.pos_x;
                    push_quad(
                        vertices,
                        indices,
                        ChunkVertex { x: xb + 1, y: yb, z: zb, u, v: v + 1 },
                        ChunkVertex { x: xb + 1, y: yb, z: zb + 1, u: u + 1, v: v + 1 },
                        ChunkVertex { x: xb + 1, y: yb + 1, z: zb + 1, u: u + 1, v },
                        ChunkVertex { x: xb + 1, y: yb + 1, z: zb, u, v },
                    );
                    proof {
                        assert(final(vertices)@ =~= old(vertices)@ + face_quad(
                            x as int,
                            y as int,
                            z as int,
                            1,
                            *solid,
                        ));
                    }
                } else {
                    proof {
                        assert(final(vertices)@ =~= old(vertices)@ + Seq::<ChunkVertex>::empty());
                        assert(final(indices)@ =~= old(indices)@ + Seq::<u32>::empty());
                    }
                }
            },
            2 => {
                if y == 0 || matches!(self.block(x, y - 1, z), Block::Air) {
                    let (u, v) = solid.neg_y;
                    push_quad(
                        vertices,
                        indices,
                        ChunkVertex { x: xb, y: yb, z: zb, u, v },
                        ChunkVertex { x: xb, y: yb, z: zb + 1, u, v: v + 1 },
                        ChunkVertex { x: xb + 1, y: yb, z: zb + 1, u: u + 1, v: v + 1 },
                        ChunkVertex { x: xb + 1, y: yb, z: zb, u: u + 1, v },
                    );
                    proof {
                        assert(final(vertices)@ =~= old(vertices)@ + face_quad(
                            x as int,
                            y as int,
                            z as int,
                            2,
                            *solid,
                        ));
                    }
                } else {
                    proof {
                        assert(final(vertices)@ =~= old(vertices)@ + Seq::<ChunkVertex>::empty());
                        assert(final(indices)@ =~= old(indices)@ + Seq::<u32>::empty());
                    }
                }
            },
            3 => {
                if y == 127 || matches!(self.block(x, y + 1, z), Block::Air) {
                    let (u, v) = solid.pos_y;
                    push_quad(
                        vertices,
                        indices,
                        ChunkVertex { x: xb, y: yb + 1, z: zb, u, v },
                        ChunkVertex { x: xb + 1, y: yb + 1, z: zb, u: u + 1, v },
                        ChunkVertex { x: xb + 1, y: yb + 1, z: zb + 1, u: u + 1, v: v + 1 },
                        ChunkVertex { x: xb, y: yb + 1, z: zb + 1, u, v: v + 1 },
                    );
                    proof {
                        assert(final(vertices)@ =~= old(vertices)@ + face_quad(
                            x as int,
                            y as int,
                            z as int,
                            3,
                            *solid,
                        ));
                    }
                } else {
                    proof {
                        assert(final(vertices)@ =~= old(vertices)@ + Seq::<ChunkVertex>::empty());
                        assert(final(indices)@ =~= old(indices)@ + Seq::<u32>::empty());
                    }
                }
            },
            4 => {
                if z == 0 || matches!(self.block(x, y, z - 1), Block::Air) {
                    let (u, v) = solid.neg_z;
                    push_quad(
                        vertices,
                        indices,
                        ChunkVertex { x: xb, y: yb, z: zb, u, v: v + 1 },
                        ChunkVertex { x: xb + 1, y: yb, z: zb, u: u + 1, v: v + 1 },
                        ChunkVertex { x: xb + 1, y: yb + 1, z: zb, u: u + 1, v },
                        ChunkVertex { x: xb, y: yb + 1, z: zb, u, v },
                    );
                    proof {
                        assert(final(vertices)@ =~= old(vertices)@ + face_quad(
                            x as int,
                            y as int,
                            z as int,
                            4,
                            *solid,
                        ));
                    }
                } else {
                    proof {
                        assert(final(vertices)@ =~= old(vertices)@ + Seq::<ChunkVertex>::empty());
                        assert(final(indices)@ =~= old(indices)@ + Seq::<u32>::empty());
                    }
                }
            },
            _ => {
                if z == 15 || matches!(self.block(x, y, z + 1), Block::Air) {
                    let (u, v) = solid.pos_z;
                    push_quad(
                        vertices,
                        indices,
                        ChunkVertex { x: xb, y: yb, z: zb + 1, u: u + 1, v: v + 1 },
                        ChunkVertex { x: xb, y: yb + 1, z: zb + 1, u: u + 1, v },
                        ChunkVertex { x: xb + 1, y: yb + 1, z: zb + 1, u, v },
                        ChunkVertex { x: xb + 1, y: yb, z: zb + 1, u, v: v + 1 },
                    );
                    proof {
                        assert(final(vertices)@ =~= old(vertices)@ + face_quad(
                            x as int,
                            y as int,
                            z as int,
                            5,
                            *solid,
                        ));
                    }
                } else {
                    proof {
                        assert(final(vertices)@ =~= old(vertices)@ + Seq::<ChunkVertex>::empty());
                        assert(final(indices)@ =~= old(indices)@ + Seq::<u32>::empty());
                    }
                }
            },
        }
    }

    /// Appends the exposed faces of the cube at `(x, y, z)` to a mesh under
    /// construction: four vertices and six indices per face whose neighbour
    /// is air or lies off the edge of the chunk.
    #[verifier::rlimit(100)]
    #[verifier::spinoff_prover]
    pub fn build_full_block_model(
        &self,
        x: usize,
        y: usize,
        z: usize,
        vertices: &mut Vec<ChunkVertex>,
        indices: &mut Vec<u32>,
        solid: &SolidBlockUv,
    )
        requires
            self.wf(),
            x < 16,
            y < 128,
            z < 16,
            uv_wf(*solid),
            old(vertices)@.len() + 24 <= u32::MAX,
        ensures
            final(vertices)@ == old(vertices)@ + cube_vertices(
                self.spec_blocks(),
                x as int,
                y as int,
                z as int,
                *solid,
            ),
            final(indices)@ == old(indices)@ + cube_indices(
                self.spec_blocks(),
                x as int,
                y as int,
                z as int,
                old(vertices)@.len() as int,
                *solid,
            ),
    {
        let ghost blocks = self.spec_blocks();
        let ghost xi = x as int;
        let ghost yi = y as int;
        let ghost zi = z as int;
        let ghost v0 = old(vertices)@;
        let ghost i0 = old(indices)@;
        self.emit_face(x, y, z, 0, vertices, indices, solid);
        self.emit_face(x, y, z, 1, vertices, indices, solid);
        self.emit_face(x, y, z, 2, vertices, indices, solid);
        self.emit_face(x, y, z, 3, vertices, indices, solid);
        self.emit_face(x, y, z, 4, vertices, indices, solid);
        self.emit_face(x, y, z, 5, vertices, indices, solid);
        proof {
            assert(face_part(blocks, xi, yi, zi, 0, *solid).len() == 4 * exposed_1(
                blocks,
                xi,
                yi,
                zi,
                0,
            ));
            assert(face_part(blocks, xi, yi, zi, 1, *solid).len() == 4 * exposed_1(
                blocks,
                xi,
                yi,
                zi,
                1,
            ));
            assert(face_part(blocks, xi, yi, zi, 2, *solid).len() == 4 * exposed_1(
                blocks,
                xi,
                yi,
                zi,
                2,
            ));
            assert(face_part(blocks, xi, yi, zi, 3, *solid).len() == 4 * exposed_1(
                blocks,
                xi,
                yi,
                zi,
                3,
            ));
            assert(face_part(blocks, xi, yi, zi, 4, *solid).len() == 4 * exposed_1(
                blocks,
                xi,
                yi,
                zi,
                4,
            ));
            assert(vertices@ =~= v0 + cube_vertices(blocks, xi, yi, zi, *solid));
            assert(indices@ =~= i0 + cube_indices(blocks, xi, yi, zi, v0.len() as int, *solid));
        }
    }

    /// Rebuilds the cached mesh from the current blocks and clears the dirty
    /// flag. Every voxel is scanned; air contributes nothing, every other
    /// material one quad per exposed face.
    pub fn rebuild_mesh(&mut self)
        requires
            old(self).wf(),
        ensures
            final(self).wf(),
            final(self).spec_blocks() == old(self).spec_blocks(),
            !final(self).spec_dirty(),
            (final(self).spec_mesh() matches Some(m) && m.vertices@ == chunk_mesh_vertices(
                old(self).spec_blocks(),
            ) && m.indices@ == chunk_mesh_indices(old(self).spec_blocks())),
            final(self).spec_uniform_offset() == old(self).spec_uniform_offset(),
            final(self).spec_uniform_index() == old(self).spec_uniform_index(),
            final(self).spec_chunk_x() == old(self).spec_chunk_x(),
            final(self).spec_chunk_z() == old(self).spec_chunk_z(),
    {
        let ghost blocks = self.spec_blocks();
        let mut vertices: Vec<ChunkVertex> = Vec::new();
        let mut indices: Vec<u32> = Vec::new();
        let mut x: usize = 0;
        while x < 16
            invariant
                x <= 16,
                self == old(self),
                self.wf(),
                blocks == self.spec_blocks(),
                vertices@ == mesh_verts_upto(blocks, x as int * 2048),
                indices@ == mesh_idx_upto(blocks, x as int * 2048),
            decreases 16 - x,
        {
            let mut y: usize = 0;
            while y < 128
                invariant
                    x < 16,
                    y <= 128,
                    self == old(self),
                    self.wf(),
                    blocks == self.spec_blocks(),
                    vertices@ == mesh_verts_upto(blocks, x as int * 2048 + y as int * 16),
                    indices@ == mesh_idx_upto(blocks, x as int * 2048 + y as int * 16),
                decreases 128 - y,
            {
                let mut z: usize = 0;
                while z < 16
                    invariant
                        x < 16,
                        y < 128,
                        z <= 16,
                        self == old(self),
                        self.wf(),
                        blocks == self.spec_blocks(),
                        vertices@ == mesh_verts_upto(
                            blocks,
                            x as int * 2048 + y as int * 16 + z as int,
                        ),
                        indices@ == mesh_idx_upto(blocks, x as int * 2048 + y as int * 16 + z as int),
                    decreases 16 - z,
                {
                    let ghost v = x as int * 2048 + y as int * 16 + z as int;
                    proof {
                        lemma_scan_coords(x as int, y as int, z as int);
                        assert((x as int * 128 + y as int) * 16 + z as int == x as int * 2048
                            + y as int * 16 + z as int) by (nonlinear_arith);
                        lemma_mesh_verts_upto_len(blocks, v);
                    }
                    let block = self.block(x, y, z);
                    if !matches!(block, Block::Air) {
                        match block.model() {
                            BlockModel::Solid(solid) => {
                                proof {
                                    assert(uv_wf(solid));
                                }
                                self.build_full_block_model(
                                    x,
                                    y,
                                    z,
                                    &mut vertices,
                                    &mut indices,
                                    &solid,
                                );
                            },
                        }
                    }
                    proof {
                        assert(vertices@ =~= mesh_verts_upto(blocks, v + 1));
                        assert(indices@ =~= mesh_idx_upto(blocks, v + 1));
                    }
                    z = z + 1;
                }
                y = y + 1;
            }
            x = x + 1;
        }
        self.mesh = Some(MeshData { vertices, indices });
        self.mesh_outdated = false;
    }
}

} // verus!
