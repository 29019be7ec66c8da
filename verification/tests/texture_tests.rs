use voxel_world::texture::{CubeFace, CubeTexture, TextureAtlas};

#[test]
fn atlas_corners_are_pixel_offsets() {
    let atlas = TextureAtlas::new(16, 256, 256);
    let c = atlas.texture_coord(1, 0);
    assert_eq!((c.c0.u, c.c0.v), (16, 0));
    assert_eq!((c.c1.u, c.c1.v), (32, 0));
    assert_eq!((c.c2.u, c.c2.v), (32, 16));
    assert_eq!((c.c3.u, c.c3.v), (16, 16));
}

#[test]
fn atlas_corners_second_row() {
    let atlas = TextureAtlas::new(16, 256, 256);
    let c = atlas.texture_coord(3, 2);
    assert_eq!((c.c0.u, c.c0.v), (48, 32));
    assert_eq!((c.c1.u, c.c1.v), (64, 32));
    assert_eq!((c.c2.u, c.c2.v), (64, 48));
    assert_eq!((c.c3.u, c.c3.v), (48, 48));
}

#[test]
fn cube_texture_all_faces_share_one_quad() {
    let t = CubeTexture::new_all([4, 0]);
    assert_eq!(t.top, [4, 0]);
    assert_eq!(t.bottom, [4, 0]);
    assert_eq!(t.left, [4, 0]);
    assert_eq!(t.right, [4, 0]);
    assert_eq!(t.front, [4, 0]);
    assert_eq!(t.back, [4, 0]);
}

#[test]
fn cube_texture_single_face_differs() {
    let t = CubeTexture::new_single([1, 0], [0, 0], CubeFace::TOP);
    assert_eq!(t.top, [0, 0]);
    assert_eq!(t.bottom, [1, 0]);
    assert_eq!(t.left, [1, 0]);
    assert_eq!(t.right, [1, 0]);
    assert_eq!(t.front, [1, 0]);
    assert_eq!(t.back, [1, 0]);
}

#[test]
fn cube_texture_new_keeps_faces_apart() {
    let t = CubeTexture::new([0, 0], [2, 0], [1, 0], [1, 1], [1, 2], [1, 3]);
    assert_eq!(t.top, [0, 0]);
    assert_eq!(t.bottom, [2, 0]);
    assert_eq!(t.left, [1, 0]);
    assert_eq!(t.right, [1, 1]);
    assert_eq!(t.front, [1, 2]);
    assert_eq!(t.back, [1, 3]);
}
