//! Block descriptors: the immutable per-block-type record that the registry
//! hands out and that every cell of a chunk carries a copy of.

use vstd::prelude::*;
use crate::texture::{quad_corners, CubeTexture, FaceUv, TextureAtlas};

verus! {

/// The shape a block is rendered with.
#[derive(Copy, Clone, PartialEq, Eq, Structural, Debug)]
pub enum MeshType {
    /// A six-sided axis-aligned cube.
    Cube,
    /// Two crossed quads, for plants.
    Flora,
}

/// Kinds of auxiliary data a block may carry, named by a tag.
pub enum BlockTag {
    Nibble(&'static str),
    Integer(&'static str),
    Float(&'static str),
    String(&'static str),
}

/// Dynamic state a block may carry.
pub enum BlockState {
    Luminosity(u8),
}

/// The atlas corners of all six faces of one block type, precomputed at
/// registration time so meshing never re-queries the atlas.
#[derive(Copy, Clone, PartialEq, Eq, Structural, Debug)]
pub struct BlockUv {
    pub top: FaceUv,
    pub bottom: FaceUv,
    pub left: FaceUv,
    pub right: FaceUv,
    pub front: FaceUv,
    pub back: FaceUv,
}

/// The precomputed face corners for a block whose faces sit at the atlas grid
/// cells named by `t`.
pub open spec fn block_corners(quad_size: u16, t: CubeTexture) -> BlockUv {
    BlockUv {
        top: quad_corners(quad_size, t.top[0], t.top[1]),
        bottom: quad_corners(quad_size, t.bottom[0], t.bottom[1]),
        left: quad_corners(quad_size, t.left[0], t.left[1]),
        right: quad_corners(quad_size, t.right[0], t.right[1]),
        front: quad_corners(quad_size, t.front[0], t.front[1]),
        back: quad_corners(quad_size, t.back[0], t.back[1]),
    }
}

/// One block type's render and material description.
#[derive(Copy, Clone, Debug)]
pub struct Block {
    /// The shape the mesher builds for this block.
    pub mesh: MeshType,
    /// Textual identifier of the block type.
    pub id: &'static str,
    /// Atlas grid cells of the six faces.
    pub texture: CubeTexture,
    /// Atlas pixel corners of the six faces, cached from the atlas.
    pub texture_coord: BlockUv,
    /// Reserved for block metadata.
    pub state: u8,
    /// Whether neighboring opaque blocks show their faces against this one.
    pub transparent: bool,
}

impl Block {
    pub fn new(
        mesh: MeshType,
        txtr: &TextureAtlas,
        id: &'static str,
        texture: CubeTexture,
        state: u8,
        transparent: bool,
    ) -> (r: Block)
        ensures
            r.mesh == mesh,
            r.id == id,
            r.texture == texture,
            r.texture_coord == block_corners(txtr.quad_size, texture),
            r.state == state,
            r.transparent == transparent,
    {
        let top = txtr.texture_coord(texture.top[0], texture.top[1]);
        let bottom = txtr.texture_coord(texture.bottom[0], texture.bottom[1]);
        let left = txtr.texture_coord(texture.left[0], texture.left[1]);
        let right = txtr.texture_coord(texture.right[0], texture.right[1]);
        let front = txtr.texture_coord(texture.front[0], texture.front[1]);
        let back = txtr.texture_coord(texture.back[0], texture.back[1]);
        Block {
            mesh,
            id,
            texture,
            texture_coord: BlockUv { top, bottom, left, right, front, back },
            state,
            transparent,
        }
    }
}

} // verus!
