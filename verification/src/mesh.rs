//! Mesh aggregation: one geometry record per loaded chunk, and on-demand
//! concatenation of the visible chunks' records into a single draw-ready
//! vertex/index buffer pair, re-biasing indices by the running vertex count.

use vstd::prelude::*;
use crate::block::Block;
use crate::chunk::{Chunk, ChunkID, CHUNK_SIZE};
use crate::mesher::{
    chunk_faces, chunk_verts, fan_indices, lemma_chunk_faces_bound, lemma_fan_indices_spec,
    mesh_chunk,
};
use crate::vertex::CubeVtx;

verus! {

/// A chunk's local indices address its own vertices.
pub open spec fn record_valid(verts: Seq<CubeVtx>, inds: Seq<u32>) -> bool {
    forall|i: int| 0 <= i < inds.len() ==> inds[i] < verts.len()
}

/// Some chunk in `chunks` has this id and is visible.
pub open spec fn is_visible(chunks: Seq<Chunk>, id: ChunkID) -> bool {
    exists|i: int|
        0 <= i < chunks.len() && (#[trigger] chunks[i]).id == id && chunks[i].visible
}

/// Concatenated vertices of the first `i` records whose chunk is visible,
/// in record (that is, chunk-insertion) order.
pub open spec fn concat_verts(
    records: Seq<(ChunkID, Vec<CubeVtx>, Vec<u32>)>,
    chunks: Seq<Chunk>,
    i: int,
) -> Seq<CubeVtx>
    decreases i,
{
    if i <= 0 {
        Seq::empty()
    } else {
        concat_verts(records, chunks, i - 1) + (if is_visible(chunks, records[i - 1].0) {
            records[i - 1].1@
        } else {
            Seq::empty()
        })
    }
}

/// `inds` with every index raised by the bias `b`.
pub open spec fn bias_indices(inds: Seq<u32>, b: int) -> Seq<u32> {
    inds.map_values(|v: u32| (v + b) as u32)
}

/// Concatenated indices of the first `i` records whose chunk is visible,
/// each record's indices biased by the vertex count gathered before it.
pub open spec fn concat_inds(
    records: Seq<(ChunkID, Vec<CubeVtx>, Vec<u32>)>,
    chunks: Seq<Chunk>,
    i: int,
) -> Seq<u32>
    decreases i,
{
    if i <= 0 {
        Seq::empty()
    } else {
        concat_inds(records, chunks, i - 1) + (if is_visible(chunks, records[i - 1].0) {
            bias_indices(records[i - 1].2@, concat_verts(records, chunks, i - 1).len() as int)
        } else {
            Seq::empty()
        })
    }
}

/// The gathered vertex count only grows as more records are taken.
pub proof fn lemma_concat_verts_mono(
    records: Seq<(ChunkID, Vec<CubeVtx>, Vec<u32>)>,
    chunks: Seq<Chunk>,
    i: int,
    j: int,
)
    requires
        0 <= i <= j,
    ensures
        concat_verts(records, chunks, i).len() <= concat_verts(records, chunks, j).len(),
    decreases j,
{
    if i < j {
        lemma_concat_verts_mono(records, chunks, i, j - 1);
    }
}

/// With no visible chunk among the first `i` records, nothing is gathered.
pub proof fn lemma_concat_none_visible(
    records: Seq<(ChunkID, Vec<CubeVtx>, Vec<u32>)>,
    chunks: Seq<Chunk>,
    i: int,
)
    requires
        forall|j: int| 0 <= j < i ==> !is_visible(chunks, (#[trigger] records[j]).0),
    ensures
        concat_verts(records, chunks, i) == Seq::<CubeVtx>::empty(),
        concat_inds(records, chunks, i) == Seq::<u32>::empty(),
    decreases i,
{
    if i > 0 {
        lemma_concat_none_visible(records, chunks, i - 1);
        assert(concat_verts(records, chunks, i) =~= Seq::<CubeVtx>::empty());
        assert(concat_inds(records, chunks, i) =~= Seq::<u32>::empty());
    }
}

/// Biasing by zero changes nothing.
pub proof fn lemma_bias_zero(inds: Seq<u32>)
    ensures
        bias_indices(inds, 0) == inds,
{
    assert(bias_indices(inds, 0) =~= inds);
}

/// A single visible record is handed back unchanged: its vertices as they
/// are, its indices with bias zero.
pub proof fn lemma_concat_single(
    records: Seq<(ChunkID, Vec<CubeVtx>, Vec<u32>)>,
    chunks: Seq<Chunk>,
)
    requires
        records.len() == 1,
        is_visible(chunks, records[0].0),
    ensures
        concat_verts(records, chunks, 1) == records[0].1@,
        concat_inds(records, chunks, 1) == records[0].2@,
{
    lemma_bias_zero(records[0].2@);
    assert(concat_verts(records, chunks, 0) == Seq::<CubeVtx>::empty());
    assert(concat_inds(records, chunks, 0) == Seq::<u32>::empty());
    assert(concat_verts(records, chunks, 1) =~= records[0].1@);
    assert(concat_inds(records, chunks, 1) =~= records[0].2@);
}

/// Two visible records concatenate with the second's indices raised by
/// exactly the first's vertex count.
pub proof fn lemma_concat_pair(
    records: Seq<(ChunkID, Vec<CubeVtx>, Vec<u32>)>,
    chunks: Seq<Chunk>,
)
    requires
        records.len() == 2,
        is_visible(chunks, records[0].0),
        is_visible(chunks, records[1].0),
    ensures
        concat_verts(records, chunks, 2) == records[0].1@ + records[1].1@,
        concat_inds(records, chunks, 2) == records[0].2@ + bias_indices(
            records[1].2@,
            records[0].1@.len() as int,
        ),
{
    lemma_bias_zero(records[0].2@);
    assert(concat_verts(records, chunks, 0) == Seq::<CubeVtx>::empty());
    assert(concat_inds(records, chunks, 0) == Seq::<u32>::empty());
    assert(concat_verts(records, chunks, 1) =~= records[0].1@);
    assert(concat_inds(records, chunks, 1) =~= records[0].2@);
    assert(concat_verts(records, chunks, 2) =~= records[0].1@ + records[1].1@);
    assert(concat_inds(records, chunks, 2) =~= records[0].2@ + bias_indices(
        records[1].2@,
        records[0].1@.len() as int,
    ));
}

/// The aggregation guarantee: when every record's own indices are valid
/// against its own vertices, every aggregated index is below the aggregated
/// vertex count.
pub proof fn lemma_retrieved_indices_valid(
    records: Seq<(ChunkID, Vec<CubeVtx>, Vec<u32>)>,
    chunks: Seq<Chunk>,
    i: int,
)
    requires
        0 <= i <= records.len(),
        forall|j: int|
            0 <= j < records.len() ==> record_valid(
                (#[trigger] records[j]).1@,
                records[j].2@,
            ),
        concat_verts(records, chunks, i).len() <= u32::MAX,
    ensures
        forall|k: int|
            0 <= k < concat_inds(records, chunks, i).len() ==> #[trigger] concat_inds(
                records,
                chunks,
                i,
            )[k] < concat_verts(records, chunks, i).len(),
    decreases i,
{
    if i > 0 {
        lemma_concat_verts_mono(records, chunks, i - 1, i);
        lemma_retrieved_indices_valid(records, chunks, i - 1);
        let pv = concat_verts(records, chunks, i - 1);
        let pi = concat_inds(records, chunks, i - 1);
        let cv = concat_verts(records, chunks, i);
        assert forall|k: int| 0 <= k < concat_inds(records, chunks, i).len() implies #[trigger] concat_inds(
            records,
            chunks,
            i,
        )[k] < cv.len() by {
            if k < pi.len() {
                assert(concat_inds(records, chunks, i)[k] == pi[k]);
            } else {
                if is_visible(chunks, records[i - 1].0) {
                    let seg = bias_indices(records[i - 1].2@, pv.len() as int);
                    assert(concat_inds(records, chunks, i)[k] == seg[k - pi.len()]);
                    assert(records[i - 1].2@[k - pi.len()] < records[i - 1].1@.len());
                }
            }
        }
    }
}

/// The cube mesh store: one `(chunk id, vertices, indices)` record per
/// loaded chunk, in insertion order.
pub struct Cube {
    pub chunk_data: Vec<(ChunkID, Vec<CubeVtx>, Vec<u32>)>,
}

/// Does some chunk in `chunk_data` carry this id with its visible flag set?
pub fn find_visible(chunk_data: &Vec<Chunk>, id: ChunkID) -> (r: bool)
    ensures
        r == is_visible(chunk_data@, id),
{
    let m = chunk_data.len();
    for i in 0..m
        invariant
            m == chunk_data@.len(),
            forall|j: int|
                0 <= j < i ==> !((#[trigger] chunk_data@[j]).id == id && chunk_data@[j].visible),
    {
        if chunk_data[i].id == id && chunk_data[i].visible {
            return true;
        }
    }
    false
}

impl Cube {
    /// Every stored record's indices are valid against its own vertices.
    pub open spec fn wf(self) -> bool {
        forall|j: int|
            0 <= j < self.chunk_data@.len() ==> record_valid(
                (#[trigger] self.chunk_data@[j]).1@,
                self.chunk_data@[j].2@,
            )
    }

    pub fn new() -> (r: Cube)
        ensures
            r.chunk_data@.len() == 0,
            r.wf(),
    {
        Cube { chunk_data: Vec::new() }
    }

    /// Store a prebuilt geometry record.
    pub fn store(&mut self, chunk: ChunkID, verts: Vec<CubeVtx>, inds: Vec<u32>)
        requires
            old(self).wf(),
            record_valid(verts@, inds@),
        ensures
            final(self).wf(),
            final(self).chunk_data@ == old(self).chunk_data@.push((chunk, verts, inds)),
    {
        self.chunk_data.push((chunk, verts, inds));
    }

    /// Mesh a chunk's block grid and store the result under its id.
    pub fn onload_data(&mut self, chunk: ChunkID, position: [u32; 3], block_data: &Vec<Block>)
        requires
            old(self).wf(),
            block_data@.len() == CHUNK_SIZE * CHUNK_SIZE * CHUNK_SIZE,
            position[0] + CHUNK_SIZE <= u32::MAX,
            position[1] + CHUNK_SIZE <= u32::MAX,
            position[2] + CHUNK_SIZE <= u32::MAX,
        ensures
            final(self).wf(),
            final(self).chunk_data@.len() == old(self).chunk_data@.len() + 1,
            forall|j: int|
                0 <= j < old(self).chunk_data@.len() ==> #[trigger] final(self).chunk_data@[j]
                    == old(self).chunk_data@[j],
            final(self).chunk_data@.last().0 == chunk,
            final(self).chunk_data@.last().1@ == chunk_verts(
                block_data@,
                CHUNK_SIZE as int,
                position[0] as int,
                position[1] as int,
                position[2] as int,
                CHUNK_SIZE as int,
            ),
            final(self).chunk_data@.last().2@ == fan_indices(
                chunk_faces(block_data@, CHUNK_SIZE as int, CHUNK_SIZE as int),
            ),
    {
        let (verts, inds) = mesh_chunk(position, CHUNK_SIZE, block_data);
        proof {
            let f = chunk_faces(block_data@, CHUNK_SIZE as int, CHUNK_SIZE as int);
            lemma_chunk_faces_bound(block_data@, CHUNK_SIZE as int, CHUNK_SIZE as int);
            lemma_fan_indices_spec(f);
            assert(record_valid(verts@, inds@));
        }
        self.store(chunk, verts, inds);
    }

    /// Concatenated vertices of the visible chunks, in insertion order.
    pub fn retrieve_vert(&self, chunk_data: &Vec<Chunk>) -> (r: Vec<CubeVtx>)
        ensures
            r@ == concat_verts(self.chunk_data@, chunk_data@, self.chunk_data@.len() as int),
    {
        let m = self.chunk_data.len();
        let mut vtx_data: Vec<CubeVtx> = Vec::new();
        for i in 0..m
            invariant
                m == self.chunk_data@.len(),
                vtx_data@ == concat_verts(self.chunk_data@, chunk_data@, i as int),
        {
            let visible = find_visible(chunk_data, self.chunk_data[i].0);
            let ghost pre = vtx_data@;
            if visible {
                let rlen = self.chunk_data[i].1.len();
                for j in 0..rlen
                    invariant
                        m == self.chunk_data@.len(),
                        i < m,
                        rlen == self.chunk_data@[i as int].1@.len(),
                        vtx_data@ == pre + self.chunk_data@[i as int].1@.subrange(0, j as int),
                {
                    vtx_data.push(self.chunk_data[i].1[j]);
                    proof {
                        assert(vtx_data@ =~= pre + self.chunk_data@[i as int].1@.subrange(
                            0,
                            j as int + 1,
                        ));
                    }
                }
                proof {
                    assert(self.chunk_data@[i as int].1@.subrange(0, rlen as int)
                        =~= self.chunk_data@[i as int].1@);
                }
            } else {
                proof {
                    assert(vtx_data@ =~= pre + Seq::<CubeVtx>::empty());
                }
            }
        }
        vtx_data
    }

    /// Concatenated indices of the visible chunks, each chunk's indices
    /// biased by the vertex count gathered before it.
    pub fn retrieve_ind(&self, chunk_data: &Vec<Chunk>) -> (r: Vec<u32>)
        requires
            self.wf(),
            concat_verts(self.chunk_data@, chunk_data@, self.chunk_data@.len() as int).len()
                <= u32::MAX,
        ensures
            r@ == concat_inds(self.chunk_data@, chunk_data@, self.chunk_data@.len() as int),
    {
        let m = self.chunk_data.len();
        let mut ind_data: Vec<u32> = Vec::new();
        let mut vtx_count: u32 = 0;
        for i in 0..m
            invariant
                self.wf(),
                m == self.chunk_data@.len(),
                concat_verts(self.chunk_data@, chunk_data@, m as int).len() <= u32::MAX,
                vtx_count == concat_verts(self.chunk_data@, chunk_data@, i as int).len(),
                ind_data@ == concat_inds(self.chunk_data@, chunk_data@, i as int),
        {
            let visible = find_visible(chunk_data, self.chunk_data[i].0);
            let ghost pre = ind_data@;
            let ghost bias = vtx_count as int;
            proof {
                lemma_concat_verts_mono(self.chunk_data@, chunk_data@, i as int + 1, m as int);
            }
            if visible {
                let rlen = self.chunk_data[i].2.len();
                for j in 0..rlen
                    invariant
                        self.wf(),
                        m == self.chunk_data@.len(),
                        i < m,
                        is_visible(chunk_data@, self.chunk_data@[i as int].0),
                        rlen == self.chunk_data@[i as int].2@.len(),
                        bias == concat_verts(self.chunk_data@, chunk_data@, i as int).len(),
                        vtx_count == bias,
                        concat_verts(self.chunk_data@, chunk_data@, i as int + 1).len()
                            <= u32::MAX,
                        ind_data@ == pre + bias_indices(
                            self.chunk_data@[i as int].2@,
                            bias,
                        ).subrange(0, j as int),
                {
                    proof {
                        assert(self.chunk_data@[i as int].2@[j as int]
                            < self.chunk_data@[i as int].1@.len());
                    }
                    let v = self.chunk_data[i].2[j];
                    ind_data.push(v + vtx_count);
                    proof {
                        assert(ind_data@ =~= pre + bias_indices(
                            self.chunk_data@[i as int].2@,
                            bias,
                        ).subrange(0, j as int + 1));
                    }
                }
                proof {
                    assert(bias_indices(self.chunk_data@[i as int].2@, bias).subrange(
                        0,
                        rlen as int,
                    ) =~= bias_indices(self.chunk_data@[i as int].2@, bias));
                }
                let seg = self.chunk_data[i].1.len();
                proof {
                    assert(concat_verts(self.chunk_data@, chunk_data@, i as int + 1).len()
                        == bias + seg);
                }
                vtx_count = vtx_count + seg as u32;
            } else {
                proof {
                    assert(ind_data@ =~= pre + Seq::<u32>::empty());
                }
            }
        }
        ind_data
    }
}

/// The per-mesh-type stores; cube geometry is the one in use.
pub struct Meshes {
    pub cube: Cube,
}

impl Meshes {
    pub open spec fn wf(self) -> bool {
        self.cube.wf()
    }

    pub fn new() -> (r: Meshes)
        ensures
            r.wf(),
            r.cube.chunk_data@.len() == 0,
    {
        Meshes { cube: Cube::new() }
    }

    /// Mesh a chunk's block grid and store the result under its id.
    pub fn onload_data(&mut self, chunk: ChunkID, position: [u32; 3], block_data: &Vec<Block>)
        requires
            old(self).wf(),
            block_data@.len() == CHUNK_SIZE * CHUNK_SIZE * CHUNK_SIZE,
            position[0] + CHUNK_SIZE <= u32::MAX,
            position[1] + CHUNK_SIZE <= u32::MAX,
            position[2] + CHUNK_SIZE <= u32::MAX,
        ensures
            final(self).wf(),
            final(self).cube.chunk_data@.len() == old(self).cube.chunk_data@.len() + 1,
            forall|j: int|
                0 <= j < old(self).cube.chunk_data@.len()
                    ==> #[trigger] final(self).cube.chunk_data@[j]
                    == old(self).cube.chunk_data@[j],
            final(self).cube.chunk_data@.last().0 == chunk,
            final(self).cube.chunk_data@.last().1@ == chunk_verts(
                block_data@,
                CHUNK_SIZE as int,
                position[0] as int,
                position[1] as int,
                position[2] as int,
                CHUNK_SIZE as int,
            ),
            final(self).cube.chunk_data@.last().2@ == fan_indices(
                chunk_faces(block_data@, CHUNK_SIZE as int, CHUNK_SIZE as int),
            ),
    {
        self.cube.onload_data(chunk, position, block_data);
    }

    /// The draw-ready pair: concatenated vertices and re-biased indices of
    /// the visible chunks.
    pub fn retrieve_data(&self, chunk_data: &Vec<Chunk>) -> (r: (Vec<CubeVtx>, Vec<u32>))
        requires
            self.wf(),
            concat_verts(
                self.cube.chunk_data@,
                chunk_data@,
                self.cube.chunk_data@.len() as int,
            ).len() <= u32::MAX,
        ensures
            r.0@ == concat_verts(
                self.cube.chunk_data@,
                chunk_data@,
                self.cube.chunk_data@.len() as int,
            ),
            r.1@ == concat_inds(
                self.cube.chunk_data@,
                chunk_data@,
                self.cube.chunk_data@.len() as int,
            ),
    {
        (self.cube.retrieve_vert(chunk_data), self.cube.retrieve_ind(chunk_data))
    }
}

} // verus!
