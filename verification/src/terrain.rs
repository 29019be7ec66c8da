//! The terrain generator: the block registry and the height-based layering
//! rule that fills a cubic region with blocks.

use vstd::prelude::*;
use rand::Rng;
use crate::block::{block_corners, Block, MeshType};
use crate::chunk::{cell_index, lemma_cell_index_lt};
use crate::texture::{CubeTexture, TextureAtlas};

verus! {

/// Height the terrain surface is anchored at, in blocks.
pub const GROUND_LEVEL: u32 = 60;

/// The block types the generator places.
#[derive(Copy, Clone, PartialEq, Eq, Structural, Debug)]
pub enum BlockKind {
    Air,
    Grass,
    Dirt,
    Stone,
}

/// Registry slot of each kind.
pub open spec fn kind_index(k: BlockKind) -> int {
    match k {
        BlockKind::Air => 0,
        BlockKind::Grass => 1,
        BlockKind::Dirt => 2,
        BlockKind::Stone => 3,
    }
}

/// The kind the layering rule puts at absolute height `y` in a column whose
/// random surface offset is `num`: air above the surface, one grass block,
/// three dirt blocks, stone below.
pub open spec fn layer_kind(y: int, num: int) -> BlockKind {
    if y >= GROUND_LEVEL - num - 1 {
        BlockKind::Air
    } else if y >= GROUND_LEVEL - num - 2 {
        BlockKind::Grass
    } else if y >= GROUND_LEVEL - num - 5 {
        BlockKind::Dirt
    } else {
        BlockKind::Stone
    }
}

/// Executable form of the layering rule.
pub fn layer(y: u32, num: u32) -> (k: BlockKind)
    requires
        num < 3,
    ensures
        k == layer_kind(y as int, num as int),
{
    if y >= GROUND_LEVEL - num - 1 {
        BlockKind::Air
    } else if y >= GROUND_LEVEL - num - 2 {
        BlockKind::Grass
    } else if y >= GROUND_LEVEL - num - 5 {
        BlockKind::Dirt
    } else {
        BlockKind::Stone
    }
}

/// Atlas grid cells of each kind's faces.
pub open spec fn standard_tiles(k: BlockKind) -> CubeTexture {
    match k {
        BlockKind::Air => CubeTexture {
            top: [4u16, 0u16],
            bottom: [4u16, 0u16],
            left: [4u16, 0u16],
            right: [4u16, 0u16],
            front: [4u16, 0u16],
            back: [4u16, 0u16],
        },
        BlockKind::Grass => CubeTexture {
            top: [0u16, 0u16],
            bottom: [2u16, 0u16],
            left: [1u16, 0u16],
            right: [1u16, 0u16],
            front: [1u16, 0u16],
            back: [1u16, 0u16],
        },
        BlockKind::Dirt => CubeTexture {
            top: [2u16, 0u16],
            bottom: [2u16, 0u16],
            left: [2u16, 0u16],
            right: [2u16, 0u16],
            front: [2u16, 0u16],
            back: [2u16, 0u16],
        },
        BlockKind::Stone => CubeTexture {
            top: [3u16, 0u16],
            bottom: [3u16, 0u16],
            left: [3u16, 0u16],
            right: [3u16, 0u16],
            front: [3u16, 0u16],
            back: [3u16, 0u16],
        },
    }
}

/// Relies on rand::Rng::gen_range: a draw from `0..bound` lies below `bound`,
/// and the range is non-empty so the call does not panic.
#[verifier::external_body]
fn random_below(bound: u32) -> (r: u32)
    requires
        bound >= 1,
    ensures
        r < bound,
{
    rand::thread_rng().gen_range(0..bound)
}

/// The generator: holds one registered descriptor per block kind.
pub struct Terrain {
    /// Registry of block descriptors, indexed by `kind_index`.
    pub blocks: Vec<Block>,
}

/// `out` is a `size`-edged cube of registry blocks of `t` whose kinds follow
/// the layering rule anchored at absolute height `y0`, with per-column
/// surface offsets `offs` (column `(x, z)` uses `offs[x * size + z]`).
pub open spec fn gen_matches(t: Terrain, out: Seq<Block>, y0: int, size: int, offs: Seq<u32>) -> bool {
    &&& offs.len() == size * size
    &&& (forall|i: int| 0 <= i < size * size ==> offs[i] < 3)
    &&& out.len() == size * size * size
    &&& (forall|x: int, y: int, z: int|
        0 <= x < size && 0 <= y < size && 0 <= z < size ==> #[trigger] out[cell_index(
            size,
            x,
            y,
            z,
        )] == t.spec_block(layer_kind(y0 + y, offs[x * size + z] as int)))
}

/// `out` follows the layering rule for some choice of per-column offsets.
pub open spec fn terrain_shaped(t: Terrain, out: Seq<Block>, y0: int, size: int) -> bool {
    exists|offs: Seq<u32>| #[trigger] gen_matches(t, out, y0, size, offs)
}

impl Terrain {
    /// The registered descriptor of kind `k`.
    pub open spec fn spec_block(self, k: BlockKind) -> Block {
        self.blocks@[kind_index(k)]
    }

    /// One descriptor per kind; air is the only transparent kind and all are
    /// cube-shaped.
    pub open spec fn wf(self) -> bool {
        &&& self.blocks@.len() == 4
        &&& (forall|k: BlockKind| (#[trigger] self.spec_block(k)).mesh is Cube)
        &&& (forall|k: BlockKind| (#[trigger] self.spec_block(k)).transparent == (k is Air))
    }

    /// Register the four block types with their atlas tiles.
    pub fn new(txtr: &TextureAtlas) -> (r: Terrain)
        ensures
            r.wf(),
            forall|k: BlockKind| (#[trigger] r.spec_block(k)).texture == standard_tiles(k),
            forall|k: BlockKind| (#[trigger] r.spec_block(k)).texture_coord == block_corners(
                txtr.quad_size,
                standard_tiles(k),
            ),
            forall|k: BlockKind| (#[trigger] r.spec_block(k)).state == 0,
            r.spec_block(BlockKind::Air).id@ == "air"@,
            r.spec_block(BlockKind::Grass).id@ == "grass"@,
            r.spec_block(BlockKind::Dirt).id@ == "dirt"@,
            r.spec_block(BlockKind::Stone).id@ == "stone"@,
    {
        let mut blocks: Vec<Block> = Vec::new();
        blocks.push(
            Block::new(MeshType::Cube, txtr, "air", CubeTexture::new_all([4, 0]), 0, true),
        );
        blocks.push(
            Block::new(
                MeshType::Cube,
                txtr,
                "grass",
                CubeTexture::new([0, 0], [2, 0], [1, 0], [1, 0], [1, 0], [1, 0]),
                0,
                false,
            ),
        );
        blocks.push(
            Block::new(MeshType::Cube, txtr, "dirt", CubeTexture::new_all([2, 0]), 0, false),
        );
        blocks.push(
            Block::new(MeshType::Cube, txtr, "stone", CubeTexture::new_all([3, 0]), 0, false),
        );
        Terrain { blocks }
    }

    /// Registry lookup.
    pub fn block(&self, k: BlockKind) -> (r: Block)
        requires
            self.wf(),
        ensures
            r == self.spec_block(k),
    {
        match k {
            BlockKind::Air => self.blocks[0],
            BlockKind::Grass => self.blocks[1],
            BlockKind::Dirt => self.blocks[2],
            BlockKind::Stone => self.blocks[3],
        }
    }

    /// Fill the cubic region of edge `size` at world-space `position` with
    /// blocks, using the given per-column surface offsets. Iteration order is
    /// `x` outer, `y` middle, `z` inner, matching chunk indexing.
    pub fn generate_with_offsets(
        &self,
        position: &[u32; 3],
        size: usize,
        offsets: &Vec<u32>,
    ) -> (r: Vec<Block>)
        requires
            self.wf(),
            size * size <= usize::MAX,
            offsets@.len() == size * size,
            forall|i: int| 0 <= i < size * size ==> offsets@[i] < 3,
            position[1] + size <= u32::MAX,
        ensures
            r@.len() == size * size * size,
            gen_matches(*self, r@, position[1] as int, size as int, offsets@),
    {
        let s = size;
        let y0 = position[1];
        let ghost sz: int = s as int;
        let mut out: Vec<Block> = Vec::new();
        proof {
            assert(0int * sz == 0);
            assert((0int * sz) * sz == 0);
        }
        for x in 0..s
            invariant
                self.wf(),
                sz == s as int,
                sz * sz <= usize::MAX,
                offsets@.len() == sz * sz,
                forall|i: int| 0 <= i < sz * sz ==> offsets@[i] < 3,
                y0 + s <= u32::MAX,
                out@.len() == x * sz * sz,
                forall|i: int, j: int, k: int|
                    0 <= i < x && 0 <= j < sz && 0 <= k < sz ==> #[trigger] out@[cell_index(
                        sz,
                        i,
                        j,
                        k,
                    )] == self.spec_block(layer_kind(y0 + j, offsets@[i * sz + k] as int)),
        {
            proof {
                assert(0int * sz == 0);
            }
            for y in 0..s
                invariant
                    self.wf(),
                    sz == s as int,
                    sz * sz <= usize::MAX,
                    offsets@.len() == sz * sz,
                    forall|i: int| 0 <= i < sz * sz ==> offsets@[i] < 3,
                    y0 + s <= u32::MAX,
                    x < s,
                    out@.len() == x * sz * sz + y * sz,
                    forall|i: int, j: int, k: int|
                        0 <= i < x && 0 <= j < sz && 0 <= k < sz ==> #[trigger] out@[cell_index(
                            sz,
                            i,
                            j,
                            k,
                        )] == self.spec_block(layer_kind(y0 + j, offsets@[i * sz + k] as int)),
                    forall|j: int, k: int|
                        0 <= j < y && 0 <= k < sz ==> #[trigger] out@[cell_index(
                            sz,
                            x as int,
                            j,
                            k,
                        )] == self.spec_block(layer_kind(y0 + j, offsets@[x * sz + k] as int)),
            {
                for z in 0..s
                    invariant
                        self.wf(),
                        sz == s as int,
                        sz * sz <= usize::MAX,
                        offsets@.len() == sz * sz,
                        forall|i: int| 0 <= i < sz * sz ==> offsets@[i] < 3,
                        y0 + s <= u32::MAX,
                        x < s,
                        y < s,
                        out@.len() == x * sz * sz + y * sz + z,
                        forall|i: int, j: int, k: int|
                            0 <= i < x && 0 <= j < sz && 0 <= k < sz ==> #[trigger] out@[cell_index(
                                sz,
                                i,
                                j,
                                k,
                            )] == self.spec_block(layer_kind(y0 + j, offsets@[i * sz + k] as int)),
                        forall|j: int, k: int|
                            0 <= j < y && 0 <= k < sz ==> #[trigger] out@[cell_index(
                                sz,
                                x as int,
                                j,
                                k,
                            )] == self.spec_block(layer_kind(y0 + j, offsets@[x * sz + k] as int)),
                        forall|k: int|
                            0 <= k < z ==> #[trigger] out@[cell_index(
                                sz,
                                x as int,
                                y as int,
                                k,
                            )] == self.spec_block(
                                layer_kind(y0 + y, offsets@[x * sz + k] as int),
                            ),
                {
                    proof {
                        assert(x * sz + z < sz * sz) by (nonlinear_arith)
                            requires 0 <= x < sz, 0 <= z < sz;
                    }
                    let col = x * s + z;
                    let num = offsets[col];
                    let ya = y0 + y as u32;
                    let b = self.block(layer(ya, num));
                    let ghost old_out = out@;
                    out.push(b);
                    proof {
                        assert(old_out.len() == cell_index(sz, x as int, y as int, z as int));
                        assert(out@[cell_index(sz, x as int, y as int, z as int)] == self.spec_block(
                            layer_kind(y0 + y, offsets@[x * sz + z] as int),
                        ));
                        assert forall|i: int, j: int, k: int|
                            0 <= i < x && 0 <= j < sz && 0 <= k < sz implies #[trigger] out@[cell_index(
                            sz,
                            i,
                            j,
                            k,
                        )] == self.spec_block(layer_kind(y0 + j, offsets@[i * sz + k] as int)) by {
                            lemma_cell_index_lt(sz, i, j, k, x as int, y as int, z as int);
                        }
                        assert forall|j: int, k: int|
                            0 <= j < y && 0 <= k < sz implies #[trigger] out@[cell_index(
                            sz,
                            x as int,
                            j,
                            k,
                        )] == self.spec_block(layer_kind(y0 + j, offsets@[x * sz + k] as int)) by {
                            lemma_cell_index_lt(sz, x as int, j, k, x as int, y as int, z as int);
                        }
                        assert forall|k: int| 0 <= k < z implies #[trigger] out@[cell_index(
                            sz,
                            x as int,
                            y as int,
                            k,
                        )] == self.spec_block(layer_kind(y0 + y, offsets@[x * sz + k] as int)) by {
                            lemma_cell_index_lt(
                                sz,
                                x as int,
                                y as int,
                                k,
                                x as int,
                                y as int,
                                z as int,
                            );
                        }
                    }
                }
                proof {
                    assert(x * sz * sz + y * sz + sz == x * sz * sz + (y + 1) * sz)
                        by (nonlinear_arith);
                }
            }
            proof {
                assert(x * sz * sz + sz * sz == (x + 1) * sz * sz) by (nonlinear_arith);
            }
        }
        proof {
            assert(out@.len() == sz * sz * sz);
        }
        out
    }

    /// Fill the cubic region of edge `size` at world-space `position`,
    /// drawing a random surface offset for every column.
    pub fn generate(&self, position: &[u32; 3], size: usize) -> (r: Vec<Block>)
        requires
            self.wf(),
            size * size <= usize::MAX,
            position[1] + size <= u32::MAX,
        ensures
            r@.len() == size * size * size,
            terrain_shaped(*self, r@, position[1] as int, size as int),
    {
        let total = size * size;
        let mut offsets: Vec<u32> = Vec::new();
        for i in 0..total
            invariant
                offsets@.len() == i,
                forall|j: int| 0 <= j < i ==> offsets@[j] < 3,
        {
            offsets.push(random_below(3));
        }
        let r = self.generate_with_offsets(position, size, &offsets);
        proof {
            assert(gen_matches(*self, r@, position[1] as int, size as int, offsets@));
        }
        r
    }
}

} // verus!
