use voxel_world::block::MeshType;
use voxel_world::terrain::{layer, BlockKind, Terrain};
use voxel_world::texture::{CubeTexture, TextureAtlas};

fn atlas() -> TextureAtlas {
    TextureAtlas::new(16, 256, 256)
}

fn idx(size: usize, x: usize, y: usize, z: usize) -> usize {
    x * size * size + y * size + z
}

#[test]
fn registry_has_the_four_kinds() {
    let terrain = Terrain::new(&atlas());
    let air = terrain.block(BlockKind::Air);
    let grass = terrain.block(BlockKind::Grass);
    let dirt = terrain.block(BlockKind::Dirt);
    let stone = terrain.block(BlockKind::Stone);
    assert_eq!(air.id, "air");
    assert_eq!(grass.id, "grass");
    assert_eq!(dirt.id, "dirt");
    assert_eq!(stone.id, "stone");
    assert!(air.transparent);
    assert!(!grass.transparent);
    assert!(!dirt.transparent);
    assert!(!stone.transparent);
    assert!(matches!(air.mesh, MeshType::Cube));
    assert!(matches!(stone.mesh, MeshType::Cube));
}

#[test]
fn registry_tiles_match_the_table() {
    let terrain = Terrain::new(&atlas());
    let grass = terrain.block(BlockKind::Grass);
    assert_eq!(grass.texture.top, [0, 0]);
    assert_eq!(grass.texture.bottom, [2, 0]);
    assert_eq!(grass.texture.left, [1, 0]);
    assert_eq!(terrain.block(BlockKind::Air).texture.top, [4, 0]);
    assert_eq!(terrain.block(BlockKind::Dirt).texture.top, [2, 0]);
    assert_eq!(terrain.block(BlockKind::Stone).texture.top, [3, 0]);
}

#[test]
fn block_caches_atlas_corners() {
    let terrain = Terrain::new(&atlas());
    let stone = terrain.block(BlockKind::Stone);
    // stone sits at tile (3, 0) of a 16-pixel atlas grid
    assert_eq!((stone.texture_coord.top.c0.u, stone.texture_coord.top.c0.v), (48, 0));
    assert_eq!((stone.texture_coord.top.c2.u, stone.texture_coord.top.c2.v), (64, 16));
    let grass = terrain.block(BlockKind::Grass);
    assert_eq!((grass.texture_coord.top.c0.u, grass.texture_coord.top.c0.v), (0, 0));
    assert_eq!((grass.texture_coord.bottom.c0.u, grass.texture_coord.bottom.c0.v), (32, 0));
}

#[test]
fn layer_bands_with_no_offset() {
    // ground level 60, offset 0: 59 air, 58 grass, 55..=57 dirt, below stone
    assert!(matches!(layer(60, 0), BlockKind::Air));
    assert!(matches!(layer(59, 0), BlockKind::Air));
    assert!(matches!(layer(58, 0), BlockKind::Grass));
    assert!(matches!(layer(57, 0), BlockKind::Dirt));
    assert!(matches!(layer(56, 0), BlockKind::Dirt));
    assert!(matches!(layer(55, 0), BlockKind::Dirt));
    assert!(matches!(layer(54, 0), BlockKind::Stone));
    assert!(matches!(layer(0, 0), BlockKind::Stone));
}

#[test]
fn layer_bands_shift_with_offset() {
    // offset 2 lowers the surface by two blocks
    assert!(matches!(layer(57, 2), BlockKind::Air));
    assert!(matches!(layer(56, 2), BlockKind::Grass));
    assert!(matches!(layer(53, 2), BlockKind::Dirt));
    assert!(matches!(layer(52, 2), BlockKind::Stone));
}

#[test]
fn generate_at_origin_is_all_stone() {
    let terrain = Terrain::new(&atlas());
    let offsets = vec![0u32; 64];
    let blocks = terrain.generate_with_offsets(&[0, 0, 0], 8, &offsets);
    assert_eq!(blocks.len(), 512);
    for b in &blocks {
        assert_eq!(b.id, "stone");
    }
}

#[test]
fn generate_crosses_the_surface_bands() {
    let terrain = Terrain::new(&atlas());
    let offsets = vec![0u32; 64];
    // world heights 52..60 within the region
    let blocks = terrain.generate_with_offsets(&[0, 52, 0], 8, &offsets);
    assert_eq!(blocks.len(), 512);
    for x in 0..8 {
        for z in 0..8 {
            assert_eq!(blocks[idx(8, x, 7, z)].id, "air"); // y = 59
            assert_eq!(blocks[idx(8, x, 6, z)].id, "grass"); // y = 58
            assert_eq!(blocks[idx(8, x, 5, z)].id, "dirt"); // y = 57
            assert_eq!(blocks[idx(8, x, 4, z)].id, "dirt"); // y = 56
            assert_eq!(blocks[idx(8, x, 3, z)].id, "dirt"); // y = 55
            assert_eq!(blocks[idx(8, x, 2, z)].id, "stone"); // y = 54
            assert_eq!(blocks[idx(8, x, 1, z)].id, "stone"); // y = 53
            assert_eq!(blocks[idx(8, x, 0, z)].id, "stone"); // y = 52
        }
    }
}

#[test]
fn generate_with_random_offsets_stays_in_the_bands() {
    let terrain = Terrain::new(&atlas());
    // deep below ground every column is stone whatever its offset
    let blocks = terrain.generate(&[0, 0, 0], 8);
    assert_eq!(blocks.len(), 512);
    for b in &blocks {
        assert_eq!(b.id, "stone");
    }
    // across the surface, every block is one of the four kinds and each
    // column is air above its own surface
    let blocks = terrain.generate(&[0, 48, 0], 16);
    assert_eq!(blocks.len(), 4096);
    for x in 0..16 {
        for z in 0..16 {
            // y = 63 is above the surface for every offset in [0, 3)
            assert_eq!(blocks[idx(16, x, 15, z)].id, "air");
            // y = 48 is below the deepest dirt for every offset
            assert_eq!(blocks[idx(16, x, 0, z)].id, "stone");
            // exactly one grass block sits in each column
            let grass_count = (0..16)
                .filter(|&y| blocks[idx(16, x, y, z)].id == "grass")
                .count();
            assert_eq!(grass_count, 1);
        }
    }
}
