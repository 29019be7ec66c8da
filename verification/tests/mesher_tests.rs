use voxel_world::block::{Block, MeshType};
use voxel_world::mesher::{face_visible_at, mesh_chunk};
use voxel_world::terrain::{BlockKind, Terrain};
use voxel_world::texture::{CubeFace, CubeTexture, TextureAtlas};

fn atlas() -> TextureAtlas {
    TextureAtlas::new(16, 256, 256)
}

fn idx(n: usize, x: usize, y: usize, z: usize) -> usize {
    x * n * n + y * n + z
}

fn grid_of(terrain: &Terrain, kind: BlockKind, n: usize) -> Vec<Block> {
    let b = terrain.block(kind);
    vec![b; n * n * n]
}

#[test]
fn single_block_emits_all_six_faces() {
    let terrain = Terrain::new(&atlas());
    let blocks = grid_of(&terrain, BlockKind::Stone, 1);
    let (verts, inds) = mesh_chunk([0, 0, 0], 1, &blocks);
    assert_eq!(verts.len(), 24);
    assert_eq!(inds.len(), 36);
}

#[test]
fn single_block_fan_pattern() {
    let terrain = Terrain::new(&atlas());
    let blocks = grid_of(&terrain, BlockKind::Stone, 1);
    let (_verts, inds) = mesh_chunk([0, 0, 0], 1, &blocks);
    let expected: Vec<u32> = (0..6u32)
        .flat_map(|k| {
            let b = 4 * k;
            vec![b, b + 1, b + 2, b, b + 2, b + 3]
        })
        .collect();
    assert_eq!(inds, expected);
}

#[test]
fn single_block_left_face_vertices() {
    let terrain = Terrain::new(&atlas());
    let blocks = grid_of(&terrain, BlockKind::Stone, 1);
    let (verts, _inds) = mesh_chunk([10, 20, 30], 1, &blocks);
    // the left face comes first; stone's left quad sits at tile (3, 0)
    let p: Vec<(u32, u32, u32)> = verts[..4]
        .iter()
        .map(|v| (v.position.x, v.position.y, v.position.z))
        .collect();
    assert_eq!(p, vec![(10, 20, 31), (10, 21, 31), (10, 21, 30), (10, 20, 30)]);
    let t: Vec<(u32, u32)> = verts[..4].iter().map(|v| (v.txtr_crd.u, v.txtr_crd.v)).collect();
    assert_eq!(t, vec![(48, 16), (48, 0), (64, 0), (64, 16)]);
}

#[test]
fn enclosed_interior_block_emits_nothing() {
    // an all-opaque 3-cube grid shows exactly its outer surface: the interior
    // block contributes zero faces
    let terrain = Terrain::new(&atlas());
    let blocks = grid_of(&terrain, BlockKind::Stone, 3);
    let (verts, inds) = mesh_chunk([0, 0, 0], 3, &blocks);
    assert_eq!(verts.len(), 54 * 4);
    assert_eq!(inds.len(), 54 * 6);
}

#[test]
fn transparent_neighbor_adds_exactly_the_opaque_faces() {
    // replacing the interior block with air adds one face per opaque
    // neighbor and none for the air block itself
    let terrain = Terrain::new(&atlas());
    let mut blocks = grid_of(&terrain, BlockKind::Stone, 3);
    blocks[idx(3, 1, 1, 1)] = terrain.block(BlockKind::Air);
    let (verts, inds) = mesh_chunk([0, 0, 0], 3, &blocks);
    assert_eq!(verts.len(), 60 * 4);
    assert_eq!(inds.len(), 60 * 6);
}

#[test]
fn boundary_faces_are_emitted_even_for_air() {
    // each cell of a 2-cube air grid has three outward boundary faces,
    // which are emitted despite the blocks being transparent; the three
    // inward faces stay hidden because air never shows a face against air
    let terrain = Terrain::new(&atlas());
    let blocks = grid_of(&terrain, BlockKind::Air, 2);
    let (verts, inds) = mesh_chunk([0, 0, 0], 2, &blocks);
    assert_eq!(verts.len(), 8 * 3 * 4);
    assert_eq!(inds.len(), 8 * 3 * 6);
}

#[test]
fn flora_blocks_contribute_no_geometry() {
    let fern = Block::new(
        MeshType::Flora,
        &atlas(),
        "fern",
        CubeTexture::new_all([5, 0]),
        0,
        true,
    );
    let blocks = vec![fern; 1];
    let (verts, inds) = mesh_chunk([0, 0, 0], 1, &blocks);
    assert_eq!(verts.len(), 0);
    assert_eq!(inds.len(), 0);
}

#[test]
fn culling_rule_is_asymmetric() {
    let terrain = Terrain::new(&atlas());
    let mut blocks = grid_of(&terrain, BlockKind::Stone, 4);
    blocks[idx(4, 2, 1, 1)] = terrain.block(BlockKind::Air);
    // the opaque block shows its face toward the transparent neighbor
    assert!(face_visible_at(&blocks, 4, 1, 1, 1, CubeFace::RIGHT));
    // the transparent block shows no face back toward the opaque one
    assert!(!face_visible_at(&blocks, 4, 2, 1, 1, CubeFace::LEFT));
    // an opaque face against an opaque neighbor stays hidden
    assert!(!face_visible_at(&blocks, 4, 1, 1, 1, CubeFace::LEFT));
    assert!(!face_visible_at(&blocks, 4, 1, 1, 1, CubeFace::TOP));
}

#[test]
fn boundary_faces_are_always_visible() {
    let terrain = Terrain::new(&atlas());
    let blocks = grid_of(&terrain, BlockKind::Stone, 3);
    assert!(face_visible_at(&blocks, 3, 0, 1, 1, CubeFace::LEFT));
    assert!(face_visible_at(&blocks, 3, 2, 1, 1, CubeFace::RIGHT));
    assert!(face_visible_at(&blocks, 3, 1, 0, 1, CubeFace::BOTTOM));
    assert!(face_visible_at(&blocks, 3, 1, 2, 1, CubeFace::TOP));
    assert!(face_visible_at(&blocks, 3, 1, 1, 0, CubeFace::FRONT));
    assert!(face_visible_at(&blocks, 3, 1, 1, 2, CubeFace::BACK));
    // and the transparent grid agrees: boundary wins over transparency
    let air = grid_of(&terrain, BlockKind::Air, 3);
    assert!(face_visible_at(&air, 3, 0, 1, 1, CubeFace::LEFT));
    assert!(face_visible_at(&air, 3, 2, 1, 1, CubeFace::RIGHT));
}
