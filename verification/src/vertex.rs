//! Vertex formats the core produces for the renderer.

use vstd::prelude::*;
use crate::texture::Uv;

verus! {

/// Marker for vertex formats a renderer can upload.
pub trait Vertex {}

/// A position in world space, in whole blocks.
#[derive(Copy, Clone, PartialEq, Eq, Structural, Debug)]
pub struct Pos3 {
    pub x: u32,
    pub y: u32,
    pub z: u32,
}

/// A textured cube vertex: a world-space block corner and its atlas pixel
/// coordinate. The renderer turns both into floats when uploading.
#[derive(Copy, Clone, PartialEq, Eq, Structural, Debug)]
pub struct CubeVtx {
    pub position: Pos3,
    pub txtr_crd: Uv,
}

impl Vertex for CubeVtx {}

} // verus!
