use voxel_world::chunk::ChunkID;
use voxel_world::texture::TextureAtlas;
use voxel_world::world::World;

fn new_world() -> World {
    World::new(String::from("overworld"), &TextureAtlas::new(16, 256, 256))
}

#[test]
fn update_loads_the_cube_around_the_viewer() {
    let mut world = new_world();
    let loaded = world.update([5, 5, 5], 2);
    assert_eq!(loaded, Some(64));
    assert_eq!(world.chunk_count(), 64);
    for x in 3..7 {
        for y in 3..7 {
            for z in 3..7 {
                assert!(world.is_chunk_loaded(ChunkID(x, y, z)));
            }
        }
    }
    assert!(!world.is_chunk_loaded(ChunkID(2, 5, 5)));
    assert!(!world.is_chunk_loaded(ChunkID(7, 5, 5)));
    assert!(!world.is_chunk_loaded(ChunkID(5, 2, 5)));
    assert!(!world.is_chunk_loaded(ChunkID(5, 5, 7)));
}

#[test]
fn second_update_at_same_position_loads_nothing() {
    let mut world = new_world();
    assert_eq!(world.update([5, 5, 5], 2), Some(64));
    assert_eq!(world.update([5, 5, 5], 2), None);
    assert_eq!(world.chunk_count(), 64);
}

#[test]
fn update_skips_negative_chunk_coordinates() {
    let mut world = new_world();
    // candidates span [-2, 2) on every axis; only the all-non-negative
    // corner survives
    let loaded = world.update([0, 0, 0], 2);
    assert_eq!(loaded, Some(8));
    assert_eq!(world.chunk_count(), 8);
    for x in 0..2 {
        for y in 0..2 {
            for z in 0..2 {
                assert!(world.is_chunk_loaded(ChunkID(x, y, z)));
            }
        }
    }
    assert!(!world.is_chunk_loaded(ChunkID(2, 0, 0)));
    assert!(!world.is_chunk_loaded(ChunkID(0, 2, 0)));
}

#[test]
fn load_chunk_is_idempotent_per_id() {
    let mut world = new_world();
    assert!(world.load_chunk([4, 4, 4]));
    assert!(!world.load_chunk([4, 4, 4]));
    assert_eq!(world.chunk_count(), 1);
    assert!(world.is_chunk_loaded(ChunkID(4, 4, 4)));
    assert!(!world.is_chunk_loaded(ChunkID(4, 4, 5)));
}

#[test]
fn overlapping_updates_only_load_new_chunks() {
    let mut world = new_world();
    assert_eq!(world.update([2, 2, 2], 1), Some(8));
    // moving one chunk along x shares half the cube
    assert_eq!(world.update([3, 2, 2], 1), Some(4));
    assert_eq!(world.chunk_count(), 12);
    assert!(world.is_chunk_loaded(ChunkID(1, 1, 1)));
    assert!(world.is_chunk_loaded(ChunkID(3, 2, 2)));
}

#[test]
fn mesh_datas_pairs_indices_with_vertices() {
    let mut world = new_world();
    // chunks straddling ground level produce a real surface
    assert_eq!(world.update([1, 1, 1], 1), Some(8));
    let (verts, inds) = world.mesh_datas();
    assert!(verts.len() > 0);
    assert!(inds.len() > 0);
    // six indices per four vertices, and every index addresses a vertex
    assert_eq!(verts.len() % 4, 0);
    assert_eq!(inds.len() % 6, 0);
    assert_eq!(inds.len() / 6, verts.len() / 4);
    let vcount = verts.len() as u32;
    assert!(inds.iter().all(|&i| i < vcount));
}
