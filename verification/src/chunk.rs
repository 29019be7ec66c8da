//! Chunks: fixed-size cubic grids of blocks, the unit of loading and meshing.

use vstd::prelude::*;
use crate::block::Block;
use crate::mesh::Meshes;
use crate::mesher::{chunk_faces, chunk_verts, fan_indices};

verus! {

/// Blocks per chunk edge; a chunk holds `CHUNK_SIZE` cubed blocks.
pub const CHUNK_SIZE: usize = 32;

/// Index of cell `(x, y, z)` in a flat block array of an `n`-edged cubic
/// grid: `x` outermost, `y` middle, `z` innermost.
pub open spec fn cell_index(n: int, x: int, y: int, z: int) -> int {
    x * n * n + y * n + z
}

/// A cell inside the grid indexes inside the array.
pub proof fn lemma_cell_index_bounds(n: int, x: int, y: int, z: int)
    requires
        0 <= x < n,
        0 <= y < n,
        0 <= z < n,
    ensures
        0 <= cell_index(n, x, y, z) < n * n * n,
{
    assert(0 <= x * n * n + y * n + z < n * n * n) by (nonlinear_arith)
        requires 0 <= x < n, 0 <= y < n, 0 <= z < n;
}

/// Cells earlier in `x`-outer, `y`-middle, `z`-inner order have smaller
/// indices.
pub proof fn lemma_cell_index_lt(n: int, i: int, j: int, k: int, x: int, y: int, z: int)
    requires
        0 <= i < n,
        0 <= j < n,
        0 <= k < n,
        0 <= x < n,
        0 <= y < n,
        0 <= z < n,
        i < x || (i == x && (j < y || (j == y && k < z))),
    ensures
        cell_index(n, i, j, k) < cell_index(n, x, y, z),
{
    assert(i * n * n + j * n + k < x * n * n + y * n + z) by (nonlinear_arith)
        requires
            0 <= i < n, 0 <= j < n, 0 <= k < n,
            0 <= x < n, 0 <= y < n, 0 <= z < n,
            i < x || (i == x && (j < y || (j == y && k < z)));
}

/// The one place local coordinates become a flat array index.
pub fn block_index(n: usize, x: usize, y: usize, z: usize) -> (r: usize)
    requires
        x < n,
        y < n,
        z < n,
        n * n * n <= usize::MAX,
    ensures
        r == cell_index(n as int, x as int, y as int, z as int),
{
    proof {
        assert((x * n + y) * n + z == x * n * n + y * n + z) by (nonlinear_arith);
        assert(x * n + y < n * n) by (nonlinear_arith)
            requires x < n, y < n;
        assert((x * n + y) * n + z < n * n * n) by (nonlinear_arith)
            requires x * n + y < n * n, z < n, 0 < n;
        assert(n * n <= n * n * n) by (nonlinear_arith)
            requires 1 <= n;
    }
    (x * n + y) * n + z
}

/// Identity of a chunk: its integer coordinate in chunk-space.
#[derive(Copy, Clone, PartialEq, Eq, Structural, Debug)]
pub struct ChunkID(pub u32, pub u32, pub u32);

/// A cubic grid of `CHUNK_SIZE` cubed blocks plus identity and visibility.
pub struct Chunk {
    pub id: ChunkID,
    /// Whether the chunk's geometry takes part in render aggregation.
    pub visible: bool,
    /// World-space origin of the chunk, in blocks.
    pub position: [u32; 3],
    /// One block per cell, in `x`-outer, `y`-middle, `z`-inner order.
    pub block_data: Vec<Block>,
}

impl Chunk {
    /// The block array has exactly one block per cell, and every vertex the
    /// chunk can produce fits in coordinate range.
    pub open spec fn wf(self) -> bool {
        &&& self.block_data@.len() == CHUNK_SIZE * CHUNK_SIZE * CHUNK_SIZE
        &&& self.position[0] + CHUNK_SIZE <= u32::MAX
        &&& self.position[1] + CHUNK_SIZE <= u32::MAX
        &&& self.position[2] + CHUNK_SIZE <= u32::MAX
    }

    pub fn new(id: ChunkID, position: [u32; 3], blocks: Vec<Block>) -> (r: Chunk)
        requires
            blocks@.len() == CHUNK_SIZE * CHUNK_SIZE * CHUNK_SIZE,
            position[0] + CHUNK_SIZE <= u32::MAX,
            position[1] + CHUNK_SIZE <= u32::MAX,
            position[2] + CHUNK_SIZE <= u32::MAX,
        ensures
            r.id == id,
            r.visible,
            r.block_data@ == blocks@,
            r.position == position,
            r.wf(),
    {
        Chunk { id, visible: true, position, block_data: blocks }
    }

    /// The block at local cell `(x, y, z)`.
    pub fn block_at(&self, x: usize, y: usize, z: usize) -> (r: Block)
        requires
            self.wf(),
            x < CHUNK_SIZE,
            y < CHUNK_SIZE,
            z < CHUNK_SIZE,
        ensures
            r == self.block_data@[cell_index(CHUNK_SIZE as int, x as int, y as int, z as int)],
    {
        proof {
            lemma_cell_index_bounds(CHUNK_SIZE as int, x as int, y as int, z as int);
        }
        let i = block_index(CHUNK_SIZE, x, y, z);
        self.block_data[i]
    }

    /// Mesh this chunk's blocks into the aggregator under this chunk's id.
    pub fn render(&self, meshes: &mut Meshes)
        requires
            self.wf(),
            old(meshes).wf(),
        ensures
            final(meshes).wf(),
            final(meshes).cube.chunk_data@.len() == old(meshes).cube.chunk_data@.len() + 1,
            forall|j: int|
                0 <= j < old(meshes).cube.chunk_data@.len()
                    ==> #[trigger] final(meshes).cube.chunk_data@[j]
                    == old(meshes).cube.chunk_data@[j],
            final(meshes).cube.chunk_data@.last().0 == self.id,
            final(meshes).cube.chunk_data@.last().1@ == chunk_verts(
                self.block_data@,
                CHUNK_SIZE as int,
                self.position[0] as int,
                self.position[1] as int,
                self.position[2] as int,
                CHUNK_SIZE as int,
            ),
            final(meshes).cube.chunk_data@.last().2@ == fan_indices(
                chunk_faces(self.block_data@, CHUNK_SIZE as int, CHUNK_SIZE as int),
            ),
    {
        meshes.onload_data(self.id, self.position, &self.block_data);
    }

    /// Exclude or include the chunk in render aggregation without freeing it.
    pub fn set_visible(&mut self, visible: bool)
        ensures
            *final(self) == (Chunk { visible, ..*old(self) }),
    {
        self.visible = visible;
    }
}

} // verus!
