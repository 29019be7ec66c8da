//! The texture-atlas model: where each block face's quad sits in the atlas.
//!
//! Coordinates are pixel offsets into the atlas image. The renderer divides
//! them by the image dimensions when it needs normalized coordinates, so the
//! core stays in exact integer arithmetic.

use vstd::prelude::*;

verus! {

/// One of the six faces of an axis-aligned cube.
#[derive(Copy, Clone, PartialEq, Eq, Structural, Debug)]
pub enum CubeFace {
    TOP,
    BOTTOM,
    LEFT,
    RIGHT,
    FRONT,
    BACK,
}

/// A texture coordinate, in pixels from the top-left corner of the atlas.
#[derive(Copy, Clone, PartialEq, Eq, Structural, Debug)]
pub struct Uv {
    pub u: u32,
    pub v: u32,
}

/// The four corners of one atlas quad, in the order top-left, top-right,
/// bottom-right, bottom-left.
#[derive(Copy, Clone, PartialEq, Eq, Structural, Debug)]
pub struct FaceUv {
    pub c0: Uv,
    pub c1: Uv,
    pub c2: Uv,
    pub c3: Uv,
}

/// The corners of the quad at grid cell `(x, y)` of an atlas whose quads are
/// `quad_size` pixels on a side.
pub open spec fn quad_corners(quad_size: u16, x: u16, y: u16) -> FaceUv {
    FaceUv {
        c0: Uv { u: (x * quad_size) as u32, v: (y * quad_size) as u32 },
        c1: Uv { u: ((x + 1) * quad_size) as u32, v: (y * quad_size) as u32 },
        c2: Uv { u: ((x + 1) * quad_size) as u32, v: ((y + 1) * quad_size) as u32 },
        c3: Uv { u: (x * quad_size) as u32, v: ((y + 1) * quad_size) as u32 },
    }
}

/// The texture atlas: a grid of square quads of `quad_size` pixels inside an
/// image of `width` by `height` pixels. Only the grid geometry lives in the
/// core; decoding the image bytes and uploading them belong to the renderer.
pub struct TextureAtlas {
    pub quad_size: u16,
    pub width: u32,
    pub height: u32,
}

impl TextureAtlas {
    pub fn new(quad_size: u16, width: u32, height: u32) -> (r: TextureAtlas)
        ensures
            r.quad_size == quad_size,
            r.width == width,
            r.height == height,
    {
        TextureAtlas { quad_size, width, height }
    }

    /// Pixel corners of the quad at grid cell `(x, y)`.
    pub fn texture_coord(&self, x: u16, y: u16) -> (r: FaceUv)
        ensures
            r == quad_corners(self.quad_size, x, y),
    {
        proof {
            assert((x as int + 1) * (self.quad_size as int) <= 0x10000 * 0xffff)
                by (nonlinear_arith)
                requires x as int <= 0xffff, self.quad_size as int <= 0xffff;
            assert((y as int + 1) * (self.quad_size as int) <= 0x10000 * 0xffff)
                by (nonlinear_arith)
                requires y as int <= 0xffff, self.quad_size as int <= 0xffff;
            assert(x as int * (self.quad_size as int) <= (x as int + 1) * (self.quad_size as int))
                by (nonlinear_arith);
            assert(y as int * (self.quad_size as int) <= (y as int + 1) * (self.quad_size as int))
                by (nonlinear_arith);
        }
        let q = self.quad_size as u32;
        let xs = x as u32 * q;
        let ys = y as u32 * q;
        let xe = (x as u32 + 1) * q;
        let ye = (y as u32 + 1) * q;
        FaceUv {
            c0: Uv { u: xs, v: ys },
            c1: Uv { u: xe, v: ys },
            c2: Uv { u: xe, v: ye },
            c3: Uv { u: xs, v: ye },
        }
    }
}

/// Atlas grid cells for the six faces of one block type.
#[derive(Copy, Clone, Debug)]
pub struct CubeTexture {
    pub top: [u16; 2],
    pub bottom: [u16; 2],
    pub left: [u16; 2],
    pub right: [u16; 2],
    pub front: [u16; 2],
    pub back: [u16; 2],
}

impl CubeTexture {
    pub fn new(
        top: [u16; 2],
        bottom: [u16; 2],
        left: [u16; 2],
        right: [u16; 2],
        front: [u16; 2],
        back: [u16; 2],
    ) -> (r: CubeTexture)
        ensures
            r.top == top,
            r.bottom == bottom,
            r.left == left,
            r.right == right,
            r.front == front,
            r.back == back,
    {
        CubeTexture { top, bottom, left, right, front, back }
    }

    /// Every face shows the same quad.
    pub fn new_all(coord: [u16; 2]) -> (r: CubeTexture)
        ensures
            r.top == coord,
            r.bottom == coord,
            r.left == coord,
            r.right == coord,
            r.front == coord,
            r.back == coord,
    {
        Self::new(coord, coord, coord, coord, coord, coord)
    }

    /// One face shows `unique`; the other five show `all`.
    pub fn new_single(all: [u16; 2], unique: [u16; 2], face: CubeFace) -> (r: CubeTexture)
        ensures
            r.top == (if face is TOP { unique } else { all }),
            r.bottom == (if face is BOTTOM { unique } else { all }),
            r.left == (if face is LEFT { unique } else { all }),
            r.right == (if face is RIGHT { unique } else { all }),
            r.front == (if face is FRONT { unique } else { all }),
            r.back == (if face is BACK { unique } else { all }),
    {
        Self::new(
            if face == CubeFace::TOP { unique } else { all },
            if face == CubeFace::BOTTOM { unique } else { all },
            if face == CubeFace::LEFT { unique } else { all },
            if face == CubeFace::RIGHT { unique } else { all },
            if face == CubeFace::FRONT { unique } else { all },
            if face == CubeFace::BACK { unique } else { all },
        )
    }
}

} // verus!
