//! The world: owns the terrain generator, the mesh aggregator and the loaded
//! chunks, and streams chunks in around a viewer's chunk-space position.

use vstd::prelude::*;
use crate::chunk::{Chunk, ChunkID, CHUNK_SIZE};
use crate::mesh::{concat_inds, concat_verts, Meshes};
use crate::mesher::{chunk_faces, chunk_verts, fan_indices};
use crate::terrain::{terrain_shaped, Terrain};
use crate::texture::TextureAtlas;
use crate::vertex::CubeVtx;

verus! {

/// The largest chunk coordinate whose world-space origin and far corner
/// still fit in `u32` block coordinates.
pub const MAX_CHUNK_COORD: u32 = 134217726;

/// Some entry of `ids` equals `id`.
pub open spec fn contains_id(ids: Seq<ChunkID>, id: ChunkID) -> bool {
    exists|i: int| 0 <= i < ids.len() && (#[trigger] ids[i]) == id
}

/// `id` lies in the load cube `[viewer - radius, viewer + radius)` on every
/// axis.
pub open spec fn in_load_range(id: ChunkID, v0: int, v1: int, v2: int, radius: int) -> bool {
    &&& v0 - radius <= id.0 < v0 + radius
    &&& v1 - radius <= id.1 < v1 + radius
    &&& v2 - radius <= id.2 < v2 + radius
}

/// `id`'s cell in the load cube comes before `(dx, dy, dz)` in the sweep
/// order of `update`: `x` outer, `y` middle, `z` inner.
pub open spec fn swept_before(
    id: ChunkID,
    v0: int,
    v1: int,
    v2: int,
    radius: int,
    dx: int,
    dy: int,
    dz: int,
) -> bool {
    let a = id.0 - (v0 - radius);
    let b = id.1 - (v1 - radius);
    let c = id.2 - (v2 - radius);
    a < dx || (a == dx && (b < dy || (b == dy && c < dz)))
}

/// The streaming invariant: the loaded set is the original set plus
/// exactly the in-range cells already swept.
pub open spec fn sweep_inv(
    cur: Seq<ChunkID>,
    orig: Seq<ChunkID>,
    v0: int,
    v1: int,
    v2: int,
    rr: int,
    dx: int,
    dy: int,
    dz: int,
) -> bool {
    forall|id: ChunkID| #![trigger contains_id(cur, id)]
        contains_id(cur, id) <==> (contains_id(orig, id) || (in_load_range(id, v0, v1, v2, rr)
            && swept_before(id, v0, v1, v2, rr, dx, dy, dz)))
}

/// Pushing an id adds exactly that id to the contained set.
pub proof fn lemma_contains_push(ids: Seq<ChunkID>, nid: ChunkID, id: ChunkID)
    ensures
        contains_id(ids.push(nid), id) == (contains_id(ids, id) || id == nid),
{
    if contains_id(ids.push(nid), id) {
        let i = choose|i: int| 0 <= i < ids.push(nid).len() && ids.push(nid)[i] == id;
        if i < ids.len() {
            assert(ids[i] == id);
        }
    }
    if contains_id(ids, id) {
        let i = choose|i: int| 0 <= i < ids.len() && ids[i] == id;
        assert(ids.push(nid)[i] == id);
    }
    if id == nid {
        assert(ids.push(nid)[ids.len() as int] == id);
    }
}

/// A swept cell with a negative coordinate matches no chunk id: the sweep
/// position can step over it with nothing loaded.
pub proof fn lemma_sweep_step_skipped(
    cur: Seq<ChunkID>,
    orig: Seq<ChunkID>,
    v0: int,
    v1: int,
    v2: int,
    rr: int,
    dx: int,
    dy: int,
    dz: int,
)
    requires
        v0 - rr + dx < 0 || v1 - rr + dy < 0 || v2 - rr + dz < 0,
        sweep_inv(cur, orig, v0, v1, v2, rr, dx, dy, dz),
    ensures
        sweep_inv(cur, orig, v0, v1, v2, rr, dx, dy, dz + 1),
{
    assert forall|id: ChunkID| #![trigger contains_id(cur, id)]
        contains_id(cur, id) <==> (contains_id(orig, id) || (in_load_range(id, v0, v1, v2, rr)
            && swept_before(id, v0, v1, v2, rr, dx, dy, dz + 1))) by {
        if in_load_range(id, v0, v1, v2, rr) && swept_before(id, v0, v1, v2, rr, dx, dy, dz + 1)
            && !swept_before(id, v0, v1, v2, rr, dx, dy, dz) {
            assert(id.0 == v0 - rr + dx && id.1 == v1 - rr + dy && id.2 == v2 - rr + dz);
            assert(false);
        }
    }
}

/// Loading the swept cell's chunk extends the loaded set by exactly that
/// cell.
pub proof fn lemma_sweep_step_loaded(
    pre: Seq<ChunkID>,
    cur: Seq<ChunkID>,
    orig: Seq<ChunkID>,
    v0: int,
    v1: int,
    v2: int,
    rr: int,
    dx: int,
    dy: int,
    dz: int,
    cid: ChunkID,
)
    requires
        sweep_inv(pre, orig, v0, v1, v2, rr, dx, dy, dz),
        cur == pre.push(cid),
        cid.0 == v0 - rr + dx,
        cid.1 == v1 - rr + dy,
        cid.2 == v2 - rr + dz,
        0 <= dx < 2 * rr,
        0 <= dy < 2 * rr,
        0 <= dz < 2 * rr,
    ensures
        sweep_inv(cur, orig, v0, v1, v2, rr, dx, dy, dz + 1),
{
    assert forall|id: ChunkID| #![trigger contains_id(cur, id)]
        contains_id(cur, id) <==> (contains_id(orig, id) || (in_load_range(id, v0, v1, v2, rr)
            && swept_before(id, v0, v1, v2, rr, dx, dy, dz + 1))) by {
        lemma_contains_push(pre, cid, id);
        if id == cid {
            assert(in_load_range(id, v0, v1, v2, rr));
            assert(swept_before(id, v0, v1, v2, rr, dx, dy, dz + 1));
        } else {
            if in_load_range(id, v0, v1, v2, rr) && swept_before(
                id,
                v0,
                v1,
                v2,
                rr,
                dx,
                dy,
                dz + 1,
            ) && !swept_before(id, v0, v1, v2, rr, dx, dy, dz) {
                assert(id.0 == cid.0 && id.1 == cid.1 && id.2 == cid.2);
                assert(false);
            }
        }
    }
}

/// When the swept cell's chunk is already loaded, the loaded set already
/// accounts for it.
pub proof fn lemma_sweep_step_already(
    cur: Seq<ChunkID>,
    orig: Seq<ChunkID>,
    v0: int,
    v1: int,
    v2: int,
    rr: int,
    dx: int,
    dy: int,
    dz: int,
    cid: ChunkID,
)
    requires
        sweep_inv(cur, orig, v0, v1, v2, rr, dx, dy, dz),
        contains_id(cur, cid),
        cid.0 == v0 - rr + dx,
        cid.1 == v1 - rr + dy,
        cid.2 == v2 - rr + dz,
        0 <= dx < 2 * rr,
        0 <= dy < 2 * rr,
        0 <= dz < 2 * rr,
    ensures
        sweep_inv(cur, orig, v0, v1, v2, rr, dx, dy, dz + 1),
{
    assert forall|id: ChunkID| #![trigger contains_id(cur, id)]
        contains_id(cur, id) <==> (contains_id(orig, id) || (in_load_range(id, v0, v1, v2, rr)
            && swept_before(id, v0, v1, v2, rr, dx, dy, dz + 1))) by {
        if id == cid {
            assert(contains_id(cur, id));
        } else {
            if in_load_range(id, v0, v1, v2, rr) && swept_before(
                id,
                v0,
                v1,
                v2,
                rr,
                dx,
                dy,
                dz + 1,
            ) && !swept_before(id, v0, v1, v2, rr, dx, dy, dz) {
                assert(id.0 == cid.0 && id.1 == cid.1 && id.2 == cid.2);
                assert(false);
            }
        }
    }
}

/// A finished inner sweep row is the start of the next one.
pub proof fn lemma_sweep_wrap_z(
    cur: Seq<ChunkID>,
    orig: Seq<ChunkID>,
    v0: int,
    v1: int,
    v2: int,
    rr: int,
    dx: int,
    dy: int,
)
    requires
        0 <= rr,
        sweep_inv(cur, orig, v0, v1, v2, rr, dx, dy, 2 * rr),
    ensures
        sweep_inv(cur, orig, v0, v1, v2, rr, dx, dy + 1, 0),
{
    assert forall|id: ChunkID| #![trigger contains_id(cur, id)]
        contains_id(cur, id) <==> (contains_id(orig, id) || (in_load_range(id, v0, v1, v2, rr)
            && swept_before(id, v0, v1, v2, rr, dx, dy + 1, 0))) by {
        if in_load_range(id, v0, v1, v2, rr) {
            assert(swept_before(id, v0, v1, v2, rr, dx, dy, 2 * rr) == swept_before(
                id,
                v0,
                v1,
                v2,
                rr,
                dx,
                dy + 1,
                0,
            ));
        }
    }
}

/// A finished sweep plane is the start of the next one.
pub proof fn lemma_sweep_wrap_y(
    cur: Seq<ChunkID>,
    orig: Seq<ChunkID>,
    v0: int,
    v1: int,
    v2: int,
    rr: int,
    dx: int,
)
    requires
        0 <= rr,
        sweep_inv(cur, orig, v0, v1, v2, rr, dx, 2 * rr, 0),
    ensures
        sweep_inv(cur, orig, v0, v1, v2, rr, dx + 1, 0, 0),
{
    assert forall|id: ChunkID| #![trigger contains_id(cur, id)]
        contains_id(cur, id) <==> (contains_id(orig, id) || (in_load_range(id, v0, v1, v2, rr)
            && swept_before(id, v0, v1, v2, rr, dx + 1, 0, 0))) by {
        if in_load_range(id, v0, v1, v2, rr) {
            assert(swept_before(id, v0, v1, v2, rr, dx, 2 * rr, 0) == swept_before(
                id,
                v0,
                v1,
                v2,
                rr,
                dx + 1,
                0,
                0,
            ));
        }
    }
}

/// After the whole cube is swept, the loaded set is the original set plus
/// every in-range id.
pub proof fn lemma_sweep_done(
    cur: Seq<ChunkID>,
    orig: Seq<ChunkID>,
    v0: int,
    v1: int,
    v2: int,
    rr: int,
)
    requires
        0 <= rr,
        sweep_inv(cur, orig, v0, v1, v2, rr, 2 * rr, 0, 0),
    ensures
        forall|id: ChunkID| #![trigger contains_id(cur, id)]
            contains_id(cur, id) <==> (contains_id(orig, id) || in_load_range(
                id,
                v0,
                v1,
                v2,
                rr,
            )),
{
    assert forall|id: ChunkID| #![trigger contains_id(cur, id)]
        contains_id(cur, id) <==> (contains_id(orig, id) || in_load_range(
            id,
            v0,
            v1,
            v2,
            rr,
        )) by {
        if in_load_range(id, v0, v1, v2, rr) {
            assert(swept_before(id, v0, v1, v2, rr, 2 * rr, 0, 0));
        }
    }
}

/// Does `ids` hold `id`?
pub fn contains_chunk(ids: &Vec<ChunkID>, id: ChunkID) -> (r: bool)
    ensures
        r == contains_id(ids@, id),
{
    let m = ids.len();
    for i in 0..m
        invariant
            m == ids@.len(),
            forall|j: int| 0 <= j < i ==> (#[trigger] ids@[j]) != id,
    {
        if ids[i] == id {
            return true;
        }
    }
    false
}

/// Re-streaming a cube whose cells are all already loaded changes nothing:
/// with unique ids, a loaded set that already contains the load cube stays
/// exactly as it is, so a repeated update at the same viewer position loads
/// zero chunks.
pub proof fn lemma_reload_adds_nothing(
    pre: Seq<ChunkID>,
    post: Seq<ChunkID>,
    v0: int,
    v1: int,
    v2: int,
    rr: int,
)
    requires
        forall|id: ChunkID| #![trigger in_load_range(id, v0, v1, v2, rr)]
            in_load_range(id, v0, v1, v2, rr) ==> contains_id(pre, id),
        post.len() >= pre.len(),
        post.subrange(0, pre.len() as int) == pre,
        forall|id: ChunkID| #![trigger contains_id(post, id)]
            contains_id(post, id) <==> (contains_id(pre, id) || in_load_range(
                id,
                v0,
                v1,
                v2,
                rr,
            )),
        forall|i: int, j: int|
            0 <= i < j < post.len() ==> (#[trigger] post[i]) != (#[trigger] post[j]),
    ensures
        post == pre,
{
    if post.len() > pre.len() {
        let id = post[pre.len() as int];
        assert(contains_id(post, id));
        assert(contains_id(pre, id));
        let i = choose|i: int| 0 <= i < pre.len() && (#[trigger] pre[i]) == id;
        assert(post[i] == pre[i]);
        assert(false);
    }
    assert(post =~= pre);
}

/// The world: terrain generator, mesh aggregator, and the loaded chunks.
/// A chunk id once loaded is never generated again; chunks are never
/// evicted, only their visibility toggles.
pub struct World {
    pub name: String,
    pub meshes: Meshes,
    pub terrain: Terrain,
    pub chunks: Vec<Chunk>,
    pub loaded_chunks: Vec<ChunkID>,
}

impl World {
    /// Chunks, ids and mesh records line up one to one, ids are unique,
    /// every chunk is well formed and sits at its id's world position, and
    /// every mesh record holds exactly its chunk's geometry.
    pub open spec fn wf(self) -> bool {
        &&& self.terrain.wf()
        &&& self.meshes.wf()
        &&& self.chunks@.len() == self.loaded_chunks@.len()
        &&& self.meshes.cube.chunk_data@.len() == self.chunks@.len()
        &&& (forall|i: int|
            0 <= i < self.chunks@.len() ==> (#[trigger] self.chunks@[i]).id
                == self.loaded_chunks@[i])
        &&& (forall|i: int| 0 <= i < self.chunks@.len() ==> (#[trigger] self.chunks@[i]).wf())
        &&& (forall|i: int|
            0 <= i < self.chunks@.len() ==> ((#[trigger] self.chunks@[i]).position[0]
                == self.chunks@[i].id.0 * CHUNK_SIZE && self.chunks@[i].position[1]
                == self.chunks@[i].id.1 * CHUNK_SIZE && self.chunks@[i].position[2]
                == self.chunks@[i].id.2 * CHUNK_SIZE))
        &&& (forall|i: int|
            0 <= i < self.chunks@.len() ==> (#[trigger] self.meshes.cube.chunk_data@[i]).0
                == self.loaded_chunks@[i])
        &&& (forall|i: int, j: int|
            0 <= i < j < self.loaded_chunks@.len() ==> (#[trigger] self.loaded_chunks@[i])
                != (#[trigger] self.loaded_chunks@[j]))
        &&& (forall|i: int|
            0 <= i < self.chunks@.len() ==> (#[trigger] self.meshes.cube.chunk_data@[i]).1@
                == chunk_verts(
                self.chunks@[i].block_data@,
                CHUNK_SIZE as int,
                self.chunks@[i].position[0] as int,
                self.chunks@[i].position[1] as int,
                self.chunks@[i].position[2] as int,
                CHUNK_SIZE as int,
            ))
        &&& (forall|i: int|
            0 <= i < self.chunks@.len() ==> (#[trigger] self.meshes.cube.chunk_data@[i]).2@
                == fan_indices(
                chunk_faces(self.chunks@[i].block_data@, CHUNK_SIZE as int, CHUNK_SIZE as int),
            ))
    }

    /// Create an empty world over the given texture atlas.
    pub fn new(name: String, txtr: &TextureAtlas) -> (r: World)
        ensures
            r.wf(),
            r.name == name,
            r.loaded_chunks@.len() == 0,
            r.chunks@.len() == 0,
            r.meshes.cube.chunk_data@.len() == 0,
    {
        World {
            name,
            meshes: Meshes::new(),
            terrain: Terrain::new(txtr),
            chunks: Vec::new(),
            loaded_chunks: Vec::new(),
        }
    }

    /// How many chunks are loaded.
    pub fn chunk_count(&self) -> (r: usize)
        ensures
            r == self.loaded_chunks@.len(),
    {
        self.loaded_chunks.len()
    }

    /// Whether the chunk with this id has been loaded.
    pub fn is_chunk_loaded(&self, id: ChunkID) -> (r: bool)
        ensures
            r == contains_id(self.loaded_chunks@, id),
    {
        contains_chunk(&self.loaded_chunks, id)
    }

    /// Load the chunk at `chunk_pos` unless it already is loaded: generate
    /// its terrain, mesh it, and record it. Returns whether a new chunk was
    /// loaded.
    pub fn load_chunk(&mut self, chunk_pos: [u32; 3]) -> (r: bool)
        requires
            old(self).wf(),
            chunk_pos[0] <= MAX_CHUNK_COORD,
            chunk_pos[1] <= MAX_CHUNK_COORD,
            chunk_pos[2] <= MAX_CHUNK_COORD,
        ensures
            final(self).wf(),
            final(self).terrain == old(self).terrain,
            final(self).name == old(self).name,
            r == !contains_id(
                old(self).loaded_chunks@,
                ChunkID(chunk_pos[0], chunk_pos[1], chunk_pos[2]),
            ),
            !r ==> *final(self) == *old(self),
            r ==> final(self).loaded_chunks@ == old(self).loaded_chunks@.push(
                ChunkID(chunk_pos[0], chunk_pos[1], chunk_pos[2]),
            ),
            r ==> final(self).chunks@.len() == old(self).chunks@.len() + 1,
            r ==> (forall|i: int|
                0 <= i < old(self).chunks@.len() ==> (#[trigger] final(self).chunks@[i]) == old(
                    self,
                ).chunks@[i]),
            r ==> final(self).chunks@.last().visible,
            r ==> final(self).chunks@.last().id == ChunkID(
                chunk_pos[0],
                chunk_pos[1],
                chunk_pos[2],
            ),
            r ==> final(self).chunks@.last().position[0] == chunk_pos[0] * CHUNK_SIZE,
            r ==> final(self).chunks@.last().position[1] == chunk_pos[1] * CHUNK_SIZE,
            r ==> final(self).chunks@.last().position[2] == chunk_pos[2] * CHUNK_SIZE,
            r ==> final(self).meshes.cube.chunk_data@.len() == old(
                self,
            ).meshes.cube.chunk_data@.len() + 1,
            r ==> (forall|i: int|
                0 <= i < old(self).meshes.cube.chunk_data@.len()
                    ==> (#[trigger] final(self).meshes.cube.chunk_data@[i]) == old(
                    self,
                ).meshes.cube.chunk_data@[i]),
            r ==> terrain_shaped(
                final(self).terrain,
                final(self).chunks@.last().block_data@,
                (chunk_pos[1] * CHUNK_SIZE) as int,
                CHUNK_SIZE as int,
            ),
    {
        let new_id = ChunkID(chunk_pos[0], chunk_pos[1], chunk_pos[2]);
        if !contains_chunk(&self.loaded_chunks, new_id) {
            let position = [
                chunk_pos[0] * CHUNK_SIZE as u32,
                chunk_pos[1] * CHUNK_SIZE as u32,
                chunk_pos[2] * CHUNK_SIZE as u32,
            ];
            let blocks = self.terrain.generate(&position, CHUNK_SIZE);
            let chunk = Chunk::new(new_id, position, blocks);
            chunk.render(&mut self.meshes);
            self.loaded_chunks.push(new_id);
            self.chunks.push(chunk);
            true
        } else {
            false
        }
    }

    /// One streaming tick: sweep the cube `[viewer - radius, viewer + radius)`
    /// in chunk space and load every not-yet-loaded cell whose coordinates
    /// are all non-negative. Returns how many chunks were newly loaded, or
    /// nothing when the tick loaded none.
    pub fn update(&mut self, viewer_chunk_pos: [i32; 3], radius: u32) -> (r: Option<u32>)
        requires
            old(self).wf(),
            radius <= 512,
            viewer_chunk_pos[0] + radius <= 0x7FF_FFFF,
            viewer_chunk_pos[1] + radius <= 0x7FF_FFFF,
            viewer_chunk_pos[2] + radius <= 0x7FF_FFFF,
            viewer_chunk_pos[0] >= -0x4000_0000,
            viewer_chunk_pos[1] >= -0x4000_0000,
            viewer_chunk_pos[2] >= -0x4000_0000,
        ensures
            final(self).wf(),
            final(self).terrain == old(self).terrain,
            final(self).name == old(self).name,
            final(self).loaded_chunks@.len() >= old(self).loaded_chunks@.len(),
            final(self).loaded_chunks@.subrange(0, old(self).loaded_chunks@.len() as int) == old(
                self,
            ).loaded_chunks@,
            forall|i: int|
                0 <= i < old(self).chunks@.len() ==> (#[trigger] final(self).chunks@[i]) == old(
                    self,
                ).chunks@[i],
            forall|i: int|
                0 <= i < old(self).meshes.cube.chunk_data@.len()
                    ==> (#[trigger] final(self).meshes.cube.chunk_data@[i]) == old(
                    self,
                ).meshes.cube.chunk_data@[i],
            forall|i: int|
                old(self).chunks@.len() <= i < final(self).chunks@.len() ==> terrain_shaped(
                    final(self).terrain,
                    (#[trigger] final(self).chunks@[i]).block_data@,
                    final(self).loaded_chunks@[i].1 * CHUNK_SIZE,
                    CHUNK_SIZE as int,
                ),
            forall|id: ChunkID| #![trigger contains_id(final(self).loaded_chunks@, id)]
                contains_id(final(self).loaded_chunks@, id) <==> (contains_id(
                    old(self).loaded_chunks@,
                    id,
                ) || in_load_range(
                    id,
                    viewer_chunk_pos[0] as int,
                    viewer_chunk_pos[1] as int,
                    viewer_chunk_pos[2] as int,
                    radius as int,
                )),
            match r {
                Some(c) => c > 0 && c as int == final(self).loaded_chunks@.len() - old(
                    self,
                ).loaded_chunks@.len(),
                None => final(self).loaded_chunks@.len() == old(self).loaded_chunks@.len(),
            },
    {
        let v0 = viewer_chunk_pos[0];
        let v1 = viewer_chunk_pos[1];
        let v2 = viewer_chunk_pos[2];
        let d = 2 * radius;
        let ghost orig = *old(self);
        let ghost ol: int = old(self).loaded_chunks@.len() as int;
        let ghost dd: int = d as int;
        let ghost rr: int = radius as int;
        let mut chunk_loaded: u32 = 0;
        proof {
            assert(0int * dd == 0);
            assert((0int * dd) * dd == 0);
            assert(sweep_inv(
                self.loaded_chunks@,
                orig.loaded_chunks@,
                v0 as int,
                v1 as int,
                v2 as int,
                rr,
                0,
                0,
                0,
            ));
        }
        for dx in 0..d
            invariant
                self.wf(),
                self.terrain == orig.terrain,
                self.name == orig.name,
                radius <= 512,
                dd == d as int,
                d == 2 * radius,
                rr == radius as int,
                v0 + radius <= 0x7FF_FFFF,
                v1 + radius <= 0x7FF_FFFF,
                v2 + radius <= 0x7FF_FFFF,
                v0 >= -0x4000_0000,
                v1 >= -0x4000_0000,
                v2 >= -0x4000_0000,
                ol == orig.loaded_chunks@.len() as int,
                self.loaded_chunks@.len() >= ol,
                self.loaded_chunks@.subrange(0, ol) == orig.loaded_chunks@,
                orig.wf(),
                forall|i: int| 0 <= i < ol ==> (#[trigger] self.chunks@[i]) == orig.chunks@[i],
                forall|i: int|
                    0 <= i < ol ==> (#[trigger] self.meshes.cube.chunk_data@[i])
                        == orig.meshes.cube.chunk_data@[i],
                forall|i: int|
                    ol <= i < self.chunks@.len() ==> terrain_shaped(
                    self.terrain,
                    (#[trigger] self.chunks@[i]).block_data@,
                    self.loaded_chunks@[i].1 * CHUNK_SIZE,
                    CHUNK_SIZE as int,
                ),
                chunk_loaded as int == self.loaded_chunks@.len() - ol,
                chunk_loaded as int <= dx * dd * dd,
                sweep_inv(
                    self.loaded_chunks@,
                    orig.loaded_chunks@,
                    v0 as int,
                    v1 as int,
                    v2 as int,
                    rr,
                    dx as int,
                    0,
                    0,
                ),
        {
            proof {
                assert(0int * dd == 0);
            }
            for dy in 0..d
                invariant
                    self.wf(),
                    self.terrain == orig.terrain,
                    self.name == orig.name,
                    radius <= 512,
                    dd == d as int,
                    d == 2 * radius,
                    rr == radius as int,
                    v0 + radius <= 0x7FF_FFFF,
                    v1 + radius <= 0x7FF_FFFF,
                    v2 + radius <= 0x7FF_FFFF,
                    v0 >= -0x4000_0000,
                    v1 >= -0x4000_0000,
                    v2 >= -0x4000_0000,
                    dx < d,
                    ol == orig.loaded_chunks@.len() as int,
                    self.loaded_chunks@.len() >= ol,
                    self.loaded_chunks@.subrange(0, ol) == orig.loaded_chunks@,
                    orig.wf(),
                    forall|i: int| 0 <= i < ol ==> (#[trigger] self.chunks@[i]) == orig.chunks@[i],
                    forall|i: int|
                        0 <= i < ol ==> (#[trigger] self.meshes.cube.chunk_data@[i])
                            == orig.meshes.cube.chunk_data@[i],
                    forall|i: int|
                        ol <= i < self.chunks@.len() ==> terrain_shaped(
                        self.terrain,
                        (#[trigger] self.chunks@[i]).block_data@,
                        self.loaded_chunks@[i].1 * CHUNK_SIZE,
                        CHUNK_SIZE as int,
                    ),
                    chunk_loaded as int == self.loaded_chunks@.len() - ol,
                    chunk_loaded as int <= dx * dd * dd + dy * dd,
                    sweep_inv(
                        self.loaded_chunks@,
                        orig.loaded_chunks@,
                        v0 as int,
                        v1 as int,
                        v2 as int,
                        rr,
                        dx as int,
                        dy as int,
                        0,
                    ),
            {
                for dz in 0..d
                    invariant
                        self.wf(),
                        self.terrain == orig.terrain,
                        self.name == orig.name,
                        radius <= 512,
                        dd == d as int,
                        d == 2 * radius,
                        rr == radius as int,
                        v0 + radius <= 0x7FF_FFFF,
                        v1 + radius <= 0x7FF_FFFF,
                        v2 + radius <= 0x7FF_FFFF,
                        v0 >= -0x4000_0000,
                        v1 >= -0x4000_0000,
                        v2 >= -0x4000_0000,
                        dx < d,
                        dy < d,
                        ol == orig.loaded_chunks@.len() as int,
                        self.loaded_chunks@.len() >= ol,
                        self.loaded_chunks@.subrange(0, ol) == orig.loaded_chunks@,
                        orig.wf(),
                        forall|i: int| 0 <= i < ol ==> (#[trigger] self.chunks@[i]) == orig.chunks@[i],
                        forall|i: int|
                            0 <= i < ol ==> (#[trigger] self.meshes.cube.chunk_data@[i])
                                == orig.meshes.cube.chunk_data@[i],
                        forall|i: int|
                            ol <= i < self.chunks@.len() ==> terrain_shaped(
                            self.terrain,
                            (#[trigger] self.chunks@[i]).block_data@,
                            self.loaded_chunks@[i].1 * CHUNK_SIZE,
                            CHUNK_SIZE as int,
                        ),
                        chunk_loaded as int == self.loaded_chunks@.len() - ol,
                        chunk_loaded as int <= dx * dd * dd + dy * dd + dz,
                        sweep_inv(
                            self.loaded_chunks@,
                            orig.loaded_chunks@,
                            v0 as int,
                            v1 as int,
                            v2 as int,
                            rr,
                            dx as int,
                            dy as int,
                            dz as int,
                        ),
                {
                    proof {
                        assert(dx * dd * dd + dy * dd + dz + 1 <= dd * dd * dd)
                            by (nonlinear_arith)
                            requires 0 <= dx < dd, 0 <= dy < dd, 0 <= dz < dd;
                        assert(dd * dd * dd <= 1024 * 1024 * 1024) by (nonlinear_arith)
                            requires 0 <= dd <= 1024;
                    }
                    let cx = v0 + dx as i32 - radius as i32;
                    let cy = v1 + dy as i32 - radius as i32;
                    let cz = v2 + dz as i32 - radius as i32;
                    let ghost pre = self.loaded_chunks@;
                    if cx >= 0 && cy >= 0 && cz >= 0 {
                        let pos = [cx as u32, cy as u32, cz as u32];
                        let ghost cid = ChunkID(cx as u32, cy as u32, cz as u32);
                        if self.load_chunk(pos) {
                            chunk_loaded = chunk_loaded + 1;
                            proof {
                                lemma_sweep_step_loaded(
                                    pre,
                                    self.loaded_chunks@,
                                    orig.loaded_chunks@,
                                    v0 as int,
                                    v1 as int,
                                    v2 as int,
                                    rr,
                                    dx as int,
                                    dy as int,
                                    dz as int,
                                    cid,
                                );
                                assert(self.loaded_chunks@.subrange(0, ol) =~= orig.loaded_chunks@);
                            }
                        } else {
                            proof {
                                lemma_sweep_step_already(
                                    self.loaded_chunks@,
                                    orig.loaded_chunks@,
                                    v0 as int,
                                    v1 as int,
                                    v2 as int,
                                    rr,
                                    dx as int,
                                    dy as int,
                                    dz as int,
                                    cid,
                                );
                            }
                        }
                    } else {
                        proof {
                            lemma_sweep_step_skipped(
                                self.loaded_chunks@,
                                orig.loaded_chunks@,
                                v0 as int,
                                v1 as int,
                                v2 as int,
                                rr,
                                dx as int,
                                dy as int,
                                dz as int,
                            );
                        }
                    }
                }
                proof {
                    lemma_sweep_wrap_z(
                        self.loaded_chunks@,
                        orig.loaded_chunks@,
                        v0 as int,
                        v1 as int,
                        v2 as int,
                        rr,
                        dx as int,
                        dy as int,
                    );
                    assert(dx * dd * dd + dy * dd + dd == dx * dd * dd + (dy + 1) * dd)
                        by (nonlinear_arith);
                }
            }
            proof {
                lemma_sweep_wrap_y(
                    self.loaded_chunks@,
                    orig.loaded_chunks@,
                    v0 as int,
                    v1 as int,
                    v2 as int,
                    rr,
                    dx as int,
                );
                assert(dx * dd * dd + dd * dd == (dx + 1) * dd * dd) by (nonlinear_arith);
            }
        }
        proof {
            lemma_sweep_done(
                self.loaded_chunks@,
                orig.loaded_chunks@,
                v0 as int,
                v1 as int,
                v2 as int,
                rr,
            );
        }
        if chunk_loaded == 0 {
            None
        } else {
            Some(chunk_loaded)
        }
    }

    /// The draw-ready buffers: concatenated vertices and re-biased indices
    /// of the currently visible chunks.
    pub fn mesh_datas(&self) -> (r: (Vec<CubeVtx>, Vec<u32>))
        requires
            self.wf(),
            concat_verts(
                self.meshes.cube.chunk_data@,
                self.chunks@,
                self.meshes.cube.chunk_data@.len() as int,
            ).len() <= u32::MAX,
        ensures
            r.0@ == concat_verts(
                self.meshes.cube.chunk_data@,
                self.chunks@,
                self.meshes.cube.chunk_data@.len() as int,
            ),
            r.1@ == concat_inds(
                self.meshes.cube.chunk_data@,
                self.chunks@,
                self.meshes.cube.chunk_data@.len() as int,
            ),
    {
        self.meshes.retrieve_data(&self.chunks)
    }
}

} // verus!
