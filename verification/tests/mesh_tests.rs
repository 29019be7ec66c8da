use voxel_world::chunk::{Chunk, ChunkID, CHUNK_SIZE};
use voxel_world::mesh::{Cube, Meshes};
use voxel_world::terrain::Terrain;
use voxel_world::texture::{TextureAtlas, Uv};
use voxel_world::vertex::{CubeVtx, Pos3};

fn atlas() -> TextureAtlas {
    TextureAtlas::new(16, 256, 256)
}

fn vtx(x: u32, y: u32, z: u32) -> CubeVtx {
    CubeVtx { position: Pos3 { x, y, z }, txtr_crd: Uv { u: 0, v: 0 } }
}

fn quad_verts(base: u32) -> Vec<CubeVtx> {
    vec![vtx(base, 0, 0), vtx(base + 1, 0, 0), vtx(base + 1, 1, 0), vtx(base, 1, 0)]
}

fn chunk_at(terrain: &Terrain, id: ChunkID) -> Chunk {
    let offsets = vec![0u32; CHUNK_SIZE * CHUNK_SIZE];
    let blocks = terrain.generate_with_offsets(&[0, 0, 0], CHUNK_SIZE, &offsets);
    Chunk::new(id, [0, 0, 0], blocks)
}

#[test]
fn zero_visible_chunks_yield_empty_buffers() {
    let mut cube = Cube::new();
    cube.store(ChunkID(0, 0, 0), quad_verts(0), vec![0, 1, 2, 0, 2, 3]);
    // no chunk in the list matches the record, so nothing is visible
    let chunks: Vec<Chunk> = Vec::new();
    assert_eq!(cube.retrieve_vert(&chunks).len(), 0);
    assert_eq!(cube.retrieve_ind(&chunks).len(), 0);
}

#[test]
fn hidden_chunk_is_excluded() {
    let terrain = Terrain::new(&atlas());
    let mut cube = Cube::new();
    cube.store(ChunkID(0, 0, 0), quad_verts(0), vec![0, 1, 2, 0, 2, 3]);
    let mut c = chunk_at(&terrain, ChunkID(0, 0, 0));
    c.set_visible(false);
    let chunks = vec![c];
    assert_eq!(cube.retrieve_vert(&chunks).len(), 0);
    assert_eq!(cube.retrieve_ind(&chunks).len(), 0);
}

#[test]
fn one_chunk_passes_through_unchanged() {
    let terrain = Terrain::new(&atlas());
    let mut cube = Cube::new();
    let verts = quad_verts(7);
    let inds = vec![0u32, 1, 2, 0, 2, 3];
    cube.store(ChunkID(0, 0, 0), verts.clone(), inds.clone());
    let chunks = vec![chunk_at(&terrain, ChunkID(0, 0, 0))];
    assert_eq!(cube.retrieve_vert(&chunks), verts);
    assert_eq!(cube.retrieve_ind(&chunks), inds);
}

#[test]
fn second_chunk_indices_are_biased_by_first_vertex_count() {
    let terrain = Terrain::new(&atlas());
    let mut cube = Cube::new();
    // chunk a: 4 vertices, 6 indices; chunk b: 8 vertices, 12 indices
    let a_verts = quad_verts(0);
    let a_inds = vec![0u32, 1, 2, 0, 2, 3];
    let mut b_verts = quad_verts(10);
    b_verts.extend(quad_verts(20));
    let b_inds = vec![0u32, 1, 2, 0, 2, 3, 4, 5, 6, 4, 6, 7];
    cube.store(ChunkID(0, 0, 0), a_verts.clone(), a_inds.clone());
    cube.store(ChunkID(1, 0, 0), b_verts.clone(), b_inds.clone());
    let chunks = vec![
        chunk_at(&terrain, ChunkID(0, 0, 0)),
        chunk_at(&terrain, ChunkID(1, 0, 0)),
    ];
    let verts = cube.retrieve_vert(&chunks);
    let inds = cube.retrieve_ind(&chunks);
    assert_eq!(verts.len(), 12);
    assert_eq!(&verts[..4], &a_verts[..]);
    assert_eq!(&verts[4..], &b_verts[..]);
    assert_eq!(&inds[..6], &a_inds[..]);
    // every index of b's portion is raised by exactly a's 4 vertices
    let expected_b: Vec<u32> = b_inds.iter().map(|&v| v + 4).collect();
    assert_eq!(&inds[6..], &expected_b[..]);
}

#[test]
fn bias_skips_hidden_chunks() {
    let terrain = Terrain::new(&atlas());
    let mut cube = Cube::new();
    cube.store(ChunkID(0, 0, 0), quad_verts(0), vec![0, 1, 2, 0, 2, 3]);
    cube.store(ChunkID(1, 0, 0), quad_verts(10), vec![0, 1, 2, 0, 2, 3]);
    cube.store(ChunkID(2, 0, 0), quad_verts(20), vec![0, 1, 2, 0, 2, 3]);
    let mut hidden = chunk_at(&terrain, ChunkID(1, 0, 0));
    hidden.set_visible(false);
    let chunks = vec![
        chunk_at(&terrain, ChunkID(0, 0, 0)),
        hidden,
        chunk_at(&terrain, ChunkID(2, 0, 0)),
    ];
    let verts = cube.retrieve_vert(&chunks);
    let inds = cube.retrieve_ind(&chunks);
    // the hidden chunk contributes nothing and the third is biased only by
    // the first's vertices
    assert_eq!(verts.len(), 8);
    assert_eq!(inds, vec![0, 1, 2, 0, 2, 3, 4, 5, 6, 4, 6, 7]);
}

#[test]
fn meshed_air_chunk_matches_expected_surface() {
    let terrain = Terrain::new(&atlas());
    // a chunk entirely above ground level holds only air: exactly the
    // boundary faces remain, four vertices and six indices per face
    let offsets = vec![0u32; CHUNK_SIZE * CHUNK_SIZE];
    let blocks = terrain.generate_with_offsets(&[0, 64, 0], CHUNK_SIZE, &offsets);
    let chunk = Chunk::new(ChunkID(0, 2, 0), [0, 64, 0], blocks);
    let mut meshes = Meshes::new();
    chunk.render(&mut meshes);
    let chunks = vec![chunk];
    let (verts, inds) = meshes.retrieve_data(&chunks);
    let boundary_faces = 6 * CHUNK_SIZE * CHUNK_SIZE;
    assert_eq!(verts.len(), boundary_faces * 4);
    assert_eq!(inds.len(), boundary_faces * 6);
    // the aggregation guarantee: every index addresses a vertex
    let vcount = verts.len() as u32;
    assert!(inds.iter().all(|&i| i < vcount));
}
