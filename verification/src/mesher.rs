//! The face-culling mesher: turns a cubic block grid into the vertex and
//! index lists of its visible faces.
//!
//! A face is visible when it lies on the chunk boundary (neighbor chunks are
//! never consulted, so border faces are always drawn), or when the block is
//! opaque and the neighboring cell holds a transparent block. Each visible
//! face contributes four vertices and the six-index fan `[0, 1, 2, 0, 2, 3]`
//! biased by the running vertex count.

use vstd::prelude::*;
use crate::block::{Block, MeshType};
use crate::chunk::{block_index, cell_index, lemma_cell_index_bounds};
use crate::texture::{CubeFace, Uv};
use crate::vertex::{CubeVtx, Pos3};

verus! {

/// A side of the grid along one axis.
pub enum Bound {
    /// The maximum-coordinate side.
    UBound,
    /// The minimum-coordinate side.
    LBound,
}

/// A coordinate axis of the grid.
pub enum Axis {
    X,
    Y,
    Z,
}

/// Whether face `f` of cell `(x, y, z)` lies on the boundary of an
/// `n`-edged grid.
pub open spec fn face_on_boundary(n: int, x: int, y: int, z: int, f: CubeFace) -> bool {
    match f {
        CubeFace::LEFT => x == 0,
        CubeFace::BOTTOM => y == 0,
        CubeFace::FRONT => z == 0,
        CubeFace::RIGHT => x == n - 1,
        CubeFace::TOP => y == n - 1,
        CubeFace::BACK => z == n - 1,
    }
}

/// The grid cell on the other side of face `f` of cell `(x, y, z)`.
pub open spec fn neighbor_cell(x: int, y: int, z: int, f: CubeFace) -> (int, int, int) {
    match f {
        CubeFace::LEFT => (x - 1, y, z),
        CubeFace::BOTTOM => (x, y - 1, z),
        CubeFace::FRONT => (x, y, z - 1),
        CubeFace::RIGHT => (x + 1, y, z),
        CubeFace::TOP => (x, y + 1, z),
        CubeFace::BACK => (x, y, z + 1),
    }
}

/// The face the neighbor turns toward `(x, y, z)`.
pub open spec fn opposite_face(f: CubeFace) -> CubeFace {
    match f {
        CubeFace::LEFT => CubeFace::RIGHT,
        CubeFace::BOTTOM => CubeFace::TOP,
        CubeFace::FRONT => CubeFace::BACK,
        CubeFace::RIGHT => CubeFace::LEFT,
        CubeFace::TOP => CubeFace::BOTTOM,
        CubeFace::BACK => CubeFace::FRONT,
    }
}

/// The culling rule: a boundary face is always visible; an interior face is
/// visible exactly when the block is opaque and its neighbor is transparent.
pub open spec fn face_visible(blocks: Seq<Block>, n: int, x: int, y: int, z: int, f: CubeFace) -> bool {
    if face_on_boundary(n, x, y, z, f) {
        true
    } else {
        let nb = neighbor_cell(x, y, z, f);
        blocks[cell_index(n, nb.0, nb.1, nb.2)].transparent && !blocks[cell_index(
            n,
            x,
            y,
            z,
        )].transparent
    }
}

/// A vertex at integer world position `(x, y, z)` with atlas coordinate `t`.
pub open spec fn vtx(x: int, y: int, z: int, t: Uv) -> CubeVtx {
    CubeVtx { position: Pos3 { x: x as u32, y: y as u32, z: z as u32 }, txtr_crd: t }
}

/// The four vertices of face `f` of a unit cube whose minimum corner sits at
/// world position `(px, py, pz)`, textured from `b`'s cached atlas corners.
/// Corner order is fixed per face so outward winding is consistent.
pub open spec fn face_quad(b: Block, px: int, py: int, pz: int, f: CubeFace) -> Seq<CubeVtx> {
    match f {
        CubeFace::LEFT => seq![
            vtx(px, py, pz + 1, b.texture_coord.left.c3),
            vtx(px, py + 1, pz + 1, b.texture_coord.left.c0),
            vtx(px, py + 1, pz, b.texture_coord.left.c1),
            vtx(px, py, pz, b.texture_coord.left.c2),
        ],
        CubeFace::BOTTOM => seq![
            vtx(px, py, pz, b.texture_coord.bottom.c0),
            vtx(px + 1, py, pz, b.texture_coord.bottom.c1),
            vtx(px + 1, py, pz + 1, b.texture_coord.bottom.c2),
            vtx(px, py, pz + 1, b.texture_coord.bottom.c3),
        ],
        CubeFace::FRONT => seq![
            vtx(px, py + 1, pz, b.texture_coord.front.c0),
            vtx(px + 1, py + 1, pz, b.texture_coord.front.c1),
            vtx(px + 1, py, pz, b.texture_coord.front.c2),
            vtx(px, py, pz, b.texture_coord.front.c3),
        ],
        CubeFace::RIGHT => seq![
            vtx(px + 1, py, pz, b.texture_coord.right.c3),
            vtx(px + 1, py + 1, pz, b.texture_coord.right.c0),
            vtx(px + 1, py + 1, pz + 1, b.texture_coord.right.c1),
            vtx(px + 1, py, pz + 1, b.texture_coord.right.c2),
        ],
        CubeFace::TOP => seq![
            vtx(px, py + 1, pz + 1, b.texture_coord.top.c0),
            vtx(px + 1, py + 1, pz + 1, b.texture_coord.top.c1),
            vtx(px + 1, py + 1, pz, b.texture_coord.top.c2),
            vtx(px, py + 1, pz, b.texture_coord.top.c3),
        ],
        CubeFace::BACK => seq![
            vtx(px, py, pz + 1, b.texture_coord.back.c2),
            vtx(px + 1, py, pz + 1, b.texture_coord.back.c3),
            vtx(px + 1, py + 1, pz + 1, b.texture_coord.back.c0),
            vtx(px, py + 1, pz + 1, b.texture_coord.back.c1),
        ],
    }
}

/// Face `f`'s contribution of cell `(x, y, z)`: its quad when visible,
/// nothing otherwise. `(ox, oy, oz)` is the world origin of the grid.
pub open spec fn maybe_quad(
    blocks: Seq<Block>,
    n: int,
    ox: int,
    oy: int,
    oz: int,
    x: int,
    y: int,
    z: int,
    f: CubeFace,
) -> Seq<CubeVtx> {
    if face_visible(blocks, n, x, y, z, f) {
        face_quad(blocks[cell_index(n, x, y, z)], ox + x, oy + y, oz + z, f)
    } else {
        Seq::empty()
    }
}

/// All vertices cell `(x, y, z)` contributes, faces in the fixed order
/// left, bottom, front, right, top, back. Non-cube blocks contribute nothing.
pub open spec fn cell_verts(
    blocks: Seq<Block>,
    n: int,
    ox: int,
    oy: int,
    oz: int,
    x: int,
    y: int,
    z: int,
) -> Seq<CubeVtx> {
    if blocks[cell_index(n, x, y, z)].mesh is Cube {
        maybe_quad(blocks, n, ox, oy, oz, x, y, z, CubeFace::LEFT) + maybe_quad(
            blocks,
            n,
            ox,
            oy,
            oz,
            x,
            y,
            z,
            CubeFace::BOTTOM,
        ) + maybe_quad(blocks, n, ox, oy, oz, x, y, z, CubeFace::FRONT) + maybe_quad(
            blocks,
            n,
            ox,
            oy,
            oz,
            x,
            y,
            z,
            CubeFace::RIGHT,
        ) + maybe_quad(blocks, n, ox, oy, oz, x, y, z, CubeFace::TOP) + maybe_quad(
            blocks,
            n,
            ox,
            oy,
            oz,
            x,
            y,
            z,
            CubeFace::BACK,
        )
    } else {
        Seq::empty()
    }
}

/// How many faces cell `(x, y, z)` emits.
pub open spec fn cell_face_count(blocks: Seq<Block>, n: int, x: int, y: int, z: int) -> int {
    if blocks[cell_index(n, x, y, z)].mesh is Cube {
        (if face_visible(blocks, n, x, y, z, CubeFace::LEFT) { 1int } else { 0 })
        + (if face_visible(blocks, n, x, y, z, CubeFace::BOTTOM) { 1int } else { 0 })
        + (if face_visible(blocks, n, x, y, z, CubeFace::FRONT) { 1int } else { 0 })
        + (if face_visible(blocks, n, x, y, z, CubeFace::RIGHT) { 1int } else { 0 })
        + (if face_visible(blocks, n, x, y, z, CubeFace::TOP) { 1int } else { 0 })
        + (if face_visible(blocks, n, x, y, z, CubeFace::BACK) { 1int } else { 0 })
    } else {
        0
    }
}

/// Vertices of cells `(x, y, 0)` through `(x, y, zc - 1)`.
pub open spec fn col_verts(
    blocks: Seq<Block>,
    n: int,
    ox: int,
    oy: int,
    oz: int,
    x: int,
    y: int,
    zc: int,
) -> Seq<CubeVtx>
    decreases zc,
{
    if zc <= 0 {
        Seq::empty()
    } else {
        col_verts(blocks, n, ox, oy, oz, x, y, zc - 1) + cell_verts(
            blocks,
            n,
            ox,
            oy,
            oz,
            x,
            y,
            zc - 1,
        )
    }
}

/// Faces of cells `(x, y, 0)` through `(x, y, zc - 1)`.
pub open spec fn col_faces(blocks: Seq<Block>, n: int, x: int, y: int, zc: int) -> int
    decreases zc,
{
    if zc <= 0 {
        0
    } else {
        col_faces(blocks, n, x, y, zc - 1) + cell_face_count(blocks, n, x, y, zc - 1)
    }
}

/// Vertices of the columns `(x, 0)` through `(x, yc - 1)`.
pub open spec fn plane_verts(
    blocks: Seq<Block>,
    n: int,
    ox: int,
    oy: int,
    oz: int,
    x: int,
    yc: int,
) -> Seq<CubeVtx>
    decreases yc,
{
    if yc <= 0 {
        Seq::empty()
    } else {
        plane_verts(blocks, n, ox, oy, oz, x, yc - 1) + col_verts(
            blocks,
            n,
            ox,
            oy,
            oz,
            x,
            yc - 1,
            n,
        )
    }
}

/// Faces of the columns `(x, 0)` through `(x, yc - 1)`.
pub open spec fn plane_faces(blocks: Seq<Block>, n: int, x: int, yc: int) -> int
    decreases yc,
{
    if yc <= 0 {
        0
    } else {
        plane_faces(blocks, n, x, yc - 1) + col_faces(blocks, n, x, yc - 1, n)
    }
}

/// Vertices of the planes `0` through `xc - 1`: the whole grid at `xc == n`.
pub open spec fn chunk_verts(
    blocks: Seq<Block>,
    n: int,
    ox: int,
    oy: int,
    oz: int,
    xc: int,
) -> Seq<CubeVtx>
    decreases xc,
{
    if xc <= 0 {
        Seq::empty()
    } else {
        chunk_verts(blocks, n, ox, oy, oz, xc - 1) + plane_verts(blocks, n, ox, oy, oz, xc - 1, n)
    }
}

/// Faces of the planes `0` through `xc - 1`: the whole grid at `xc == n`.
pub open spec fn chunk_faces(blocks: Seq<Block>, n: int, xc: int) -> int
    decreases xc,
{
    if xc <= 0 {
        0
    } else {
        chunk_faces(blocks, n, xc - 1) + plane_faces(blocks, n, xc - 1, n)
    }
}

/// The index fan of the `k`-th face: `[0, 1, 2, 0, 2, 3]` biased by the
/// running vertex count `4 * k`.
pub open spec fn quad_fan(k: int) -> Seq<u32> {
    seq![
        (4 * k) as u32,
        (4 * k + 1) as u32,
        (4 * k + 2) as u32,
        (4 * k) as u32,
        (4 * k + 2) as u32,
        (4 * k + 3) as u32,
    ]
}

/// The index list of `f` consecutive faces.
pub open spec fn fan_indices(f: int) -> Seq<u32>
    decreases f,
{
    if f <= 0 {
        Seq::empty()
    } else {
        fan_indices(f - 1) + quad_fan(f - 1)
    }
}

/// Executable form of the culling rule, the single place neighbor cells are
/// looked up.
pub fn face_visible_at(blocks: &Vec<Block>, n: usize, x: usize, y: usize, z: usize, f: CubeFace) -> (r:
    bool)
    requires
        n * n * n <= usize::MAX,
        blocks@.len() == n * n * n,
        x < n,
        y < n,
        z < n,
    ensures
        r == face_visible(blocks@, n as int, x as int, y as int, z as int, f),
{
    let on_boundary = match f {
        CubeFace::LEFT => x == 0,
        CubeFace::BOTTOM => y == 0,
        CubeFace::FRONT => z == 0,
        CubeFace::RIGHT => x == n - 1,
        CubeFace::TOP => y == n - 1,
        CubeFace::BACK => z == n - 1,
    };
    if on_boundary {
        true
    } else {
        let (nx, ny, nz) = match f {
            CubeFace::LEFT => (x - 1, y, z),
            CubeFace::BOTTOM => (x, y - 1, z),
            CubeFace::FRONT => (x, y, z - 1),
            CubeFace::RIGHT => (x + 1, y, z),
            CubeFace::TOP => (x, y + 1, z),
            CubeFace::BACK => (x, y, z + 1),
        };
        proof {
            lemma_cell_index_bounds(n as int, nx as int, ny as int, nz as int);
            lemma_cell_index_bounds(n as int, x as int, y as int, z as int);
        }
        let ni = block_index(n, nx, ny, nz);
        let ci = block_index(n, x, y, z);
        blocks[ni].transparent && !blocks[ci].transparent
    }
}

/// Append the four vertices of face `f` of the block at world position
/// `(px, py, pz)`.
fn emit_face(verts: &mut Vec<CubeVtx>, b: &Block, px: u32, py: u32, pz: u32, f: CubeFace)
    requires
        px + 1 <= u32::MAX,
        py + 1 <= u32::MAX,
        pz + 1 <= u32::MAX,
    ensures
        final(verts)@ == old(verts)@ + face_quad(*b, px as int, py as int, pz as int, f),
{
    let t = &b.texture_coord;
    match f {
        CubeFace::LEFT => {
            verts.push(CubeVtx { position: Pos3 { x: px, y: py, z: pz + 1 }, txtr_crd: t.left.c3 });
            verts.push(
                CubeVtx { position: Pos3 { x: px, y: py + 1, z: pz + 1 }, txtr_crd: t.left.c0 },
            );
            verts.push(CubeVtx { position: Pos3 { x: px, y: py + 1, z: pz }, txtr_crd: t.left.c1 });
            verts.push(CubeVtx { position: Pos3 { x: px, y: py, z: pz }, txtr_crd: t.left.c2 });
        },
        CubeFace::BOTTOM => {
            verts.push(CubeVtx { position: Pos3 { x: px, y: py, z: pz }, txtr_crd: t.bottom.c0 });
            verts.push(
                CubeVtx { position: Pos3 { x: px + 1, y: py, z: pz }, txtr_crd: t.bottom.c1 },
            );
            verts.push(
                CubeVtx { position: Pos3 { x: px + 1, y: py, z: pz + 1 }, txtr_crd: t.bottom.c2 },
            );
            verts.push(
                CubeVtx { position: Pos3 { x: px, y: py, z: pz + 1 }, txtr_crd: t.bottom.c3 },
            );
        },
        CubeFace::FRONT => {
            verts.push(
                CubeVtx { position: Pos3 { x: px, y: py + 1, z: pz }, txtr_crd: t.front.c0 },
            );
            verts.push(
                CubeVtx { position: Pos3 { x: px + 1, y: py + 1, z: pz }, txtr_crd: t.front.c1 },
            );
            verts.push(
                CubeVtx { position: Pos3 { x: px + 1, y: py, z: pz }, txtr_crd: t.front.c2 },
            );
            verts.push(CubeVtx { position: Pos3 { x: px, y: py, z: pz }, txtr_crd: t.front.c3 });
        },
        CubeFace::RIGHT => {
            verts.push(
                CubeVtx { position: Pos3 { x: px + 1, y: py, z: pz }, txtr_crd: t.right.c3 },
            );
            verts.push(
                CubeVtx { position: Pos3 { x: px + 1, y: py + 1, z: pz }, txtr_crd: t.right.c0 },
            );
            verts.push(
                CubeVtx {
                    position: Pos3 { x: px + 1, y: py + 1, z: pz + 1 },
                    txtr_crd: t.right.c1,
                },
            );
            verts.push(
                CubeVtx { position: Pos3 { x: px + 1, y: py, z: pz + 1 }, txtr_crd: t.right.c2 },
            );
        },
        CubeFace::TOP => {
            verts.push(
                CubeVtx { position: Pos3 { x: px, y: py + 1, z: pz + 1 }, txtr_crd: t.top.c0 },
            );
            verts.push(
                CubeVtx { position: Pos3 { x: px + 1, y: py + 1, z: pz + 1 }, txtr_crd: t.top.c1 },
            );
            verts.push(
                CubeVtx { position: Pos3 { x: px + 1, y: py + 1, z: pz }, txtr_crd: t.top.c2 },
            );
            verts.push(CubeVtx { position: Pos3 { x: px, y: py + 1, z: pz }, txtr_crd: t.top.c3 });
        },
        CubeFace::BACK => {
            verts.push(
                CubeVtx { position: Pos3 { x: px, y: py, z: pz + 1 }, txtr_crd: t.back.c2 },
            );
            verts.push(
                CubeVtx { position: Pos3 { x: px + 1, y: py, z: pz + 1 }, txtr_crd: t.back.c3 },
            );
            verts.push(
                CubeVtx {
                    position: Pos3 { x: px + 1, y: py + 1, z: pz + 1 },
                    txtr_crd: t.back.c0,
                },
            );
            verts.push(
                CubeVtx { position: Pos3 { x: px, y: py + 1, z: pz + 1 }, txtr_crd: t.back.c1 },
            );
        },
    }
    proof {
        assert(verts@ =~= old(verts)@ + face_quad(*b, px as int, py as int, pz as int, f));
    }
}

/// Append the six-index fan of the `k`-th face.
fn emit_fan(inds: &mut Vec<u32>, k: usize)
    requires
        4 * k + 3 <= u32::MAX,
    ensures
        final(inds)@ == old(inds)@ + quad_fan(k as int),
{
    let base = 4 * (k as u32);
    inds.push(base);
    inds.push(base + 1);
    inds.push(base + 2);
    inds.push(base);
    inds.push(base + 2);
    inds.push(base + 3);
    proof {
        assert(inds@ =~= old(inds)@ + quad_fan(k as int));
    }
}


/// A cell emits between zero and six faces.
pub proof fn lemma_cell_face_count_bounds(blocks: Seq<Block>, n: int, x: int, y: int, z: int)
    ensures
        0 <= cell_face_count(blocks, n, x, y, z) <= 6,
{
}

/// A column of `zc` cells emits at most `6 * zc` faces.
pub proof fn lemma_col_faces_bound(blocks: Seq<Block>, n: int, x: int, y: int, zc: int)
    requires
        0 <= zc,
    ensures
        0 <= col_faces(blocks, n, x, y, zc) <= 6 * zc,
    decreases zc,
{
    if zc > 0 {
        lemma_col_faces_bound(blocks, n, x, y, zc - 1);
        lemma_cell_face_count_bounds(blocks, n, x, y, zc - 1);
    }
}

/// A plane of `yc` columns emits at most `6 * n * yc` faces.
pub proof fn lemma_plane_faces_bound(blocks: Seq<Block>, n: int, x: int, yc: int)
    requires
        0 <= n,
        0 <= yc,
    ensures
        0 <= plane_faces(blocks, n, x, yc) <= 6 * n * yc,
    decreases yc,
{
    if yc > 0 {
        lemma_plane_faces_bound(blocks, n, x, yc - 1);
        lemma_col_faces_bound(blocks, n, x, yc - 1, n);
        assert(6 * n * (yc - 1) + 6 * n == 6 * n * yc) by (nonlinear_arith);
    }
}

/// `xc` planes emit at most `6 * n * n * xc` faces.
pub proof fn lemma_chunk_faces_bound(blocks: Seq<Block>, n: int, xc: int)
    requires
        0 <= n,
        0 <= xc,
    ensures
        0 <= chunk_faces(blocks, n, xc) <= 6 * n * n * xc,
    decreases xc,
{
    if xc > 0 {
        lemma_chunk_faces_bound(blocks, n, xc - 1);
        lemma_plane_faces_bound(blocks, n, xc - 1, n);
        assert(6 * n * n * (xc - 1) + 6 * n * n == 6 * n * n * xc) by (nonlinear_arith);
    }
}

/// A cell contributes four vertices per emitted face.
pub proof fn lemma_cell_verts_len(
    blocks: Seq<Block>,
    n: int,
    ox: int,
    oy: int,
    oz: int,
    x: int,
    y: int,
    z: int,
)
    ensures
        cell_verts(blocks, n, ox, oy, oz, x, y, z).len() == 4 * cell_face_count(blocks, n, x, y, z),
{
}

/// A column contributes four vertices per emitted face.
pub proof fn lemma_col_verts_len(
    blocks: Seq<Block>,
    n: int,
    ox: int,
    oy: int,
    oz: int,
    x: int,
    y: int,
    zc: int,
)
    requires
        0 <= zc,
    ensures
        col_verts(blocks, n, ox, oy, oz, x, y, zc).len() == 4 * col_faces(blocks, n, x, y, zc),
    decreases zc,
{
    if zc > 0 {
        lemma_col_verts_len(blocks, n, ox, oy, oz, x, y, zc - 1);
        lemma_cell_verts_len(blocks, n, ox, oy, oz, x, y, zc - 1);
    }
}

/// A plane contributes four vertices per emitted face.
pub proof fn lemma_plane_verts_len(
    blocks: Seq<Block>,
    n: int,
    ox: int,
    oy: int,
    oz: int,
    x: int,
    yc: int,
)
    requires
        0 <= n,
        0 <= yc,
    ensures
        plane_verts(blocks, n, ox, oy, oz, x, yc).len() == 4 * plane_faces(blocks, n, x, yc),
    decreases yc,
{
    if yc > 0 {
        lemma_plane_verts_len(blocks, n, ox, oy, oz, x, yc - 1);
        lemma_col_verts_len(blocks, n, ox, oy, oz, x, yc - 1, n);
    }
}

/// The whole grid contributes four vertices per emitted face.
pub proof fn lemma_chunk_verts_len(
    blocks: Seq<Block>,
    n: int,
    ox: int,
    oy: int,
    oz: int,
    xc: int,
)
    requires
        0 <= n,
        0 <= xc,
    ensures
        chunk_verts(blocks, n, ox, oy, oz, xc).len() == 4 * chunk_faces(blocks, n, xc),
    decreases xc,
{
    if xc > 0 {
        lemma_chunk_verts_len(blocks, n, ox, oy, oz, xc - 1);
        lemma_plane_verts_len(blocks, n, ox, oy, oz, xc - 1, n);
    }
}

/// The fan of `f` faces has six indices per face, every one below the
/// vertex count `4 * f`.
pub proof fn lemma_fan_indices_spec(f: int)
    requires
        0 <= f,
        4 * f <= u32::MAX + 1,
    ensures
        fan_indices(f).len() == 6 * f,
        forall|i: int| 0 <= i < 6 * f ==> fan_indices(f)[i] < 4 * f,
    decreases f,
{
    if f > 0 {
        lemma_fan_indices_spec(f - 1);
        let k = f - 1;
        assert forall|i: int| 0 <= i < 6 * f implies fan_indices(f)[i] < 4 * f by {
            if i < 6 * k {
                assert(fan_indices(f)[i] == fan_indices(k)[i]);
            } else {
                let j = i - 6 * k;
                assert(fan_indices(f)[i] == quad_fan(k)[j]);
                if j == 0 {
                    assert(quad_fan(k)[0] == (4 * k) as u32);
                } else if j == 1 {
                    assert(quad_fan(k)[1] == (4 * k + 1) as u32);
                } else if j == 2 {
                    assert(quad_fan(k)[2] == (4 * k + 2) as u32);
                } else if j == 3 {
                    assert(quad_fan(k)[3] == (4 * k) as u32);
                } else if j == 4 {
                    assert(quad_fan(k)[4] == (4 * k + 2) as u32);
                } else {
                    assert(quad_fan(k)[5] == (4 * k + 3) as u32);
                }
            }
        }
    }
}

/// Left-nested concatenation of six sequences onto a prefix equals the
/// prefix followed by their combined concatenation.
proof fn lemma_concat_six<T>(p: Seq<T>, a: Seq<T>, b: Seq<T>, c: Seq<T>, d: Seq<T>, e: Seq<T>, f: Seq<T>)
    ensures
        p + (a + b + c + d + e + f) == ((((((p + a) + b) + c) + d) + e) + f),
{
    assert(p + (a + b + c + d + e + f) =~= ((((((p + a) + b) + c) + d) + e) + f));
}

/// Mesh one face of one cell: append its quad and index fan when the face
/// is visible.
fn mesh_face(
    verts: &mut Vec<CubeVtx>,
    inds: &mut Vec<u32>,
    faces: &mut usize,
    blocks: &Vec<Block>,
    n: usize,
    x: usize,
    y: usize,
    z: usize,
    ox: u32,
    oy: u32,
    oz: u32,
    f: CubeFace,
)
    requires
        1 <= n,
        n * n * n <= usize::MAX,
        blocks@.len() == n * n * n,
        x < n,
        y < n,
        z < n,
        ox + n <= u32::MAX,
        oy + n <= u32::MAX,
        oz + n <= u32::MAX,
        4 * (*old(faces) + 1) <= u32::MAX,
        old(inds)@ == fan_indices(*old(faces) as int),
    ensures
        final(verts)@ == old(verts)@ + maybe_quad(
            blocks@,
            n as int,
            ox as int,
            oy as int,
            oz as int,
            x as int,
            y as int,
            z as int,
            f,
        ),
        *final(faces) == *old(faces) + (if face_visible(
            blocks@,
            n as int,
            x as int,
            y as int,
            z as int,
            f,
        ) { 1int } else { 0 }),
        final(inds)@ == fan_indices(*final(faces) as int),
{
    if face_visible_at(blocks, n, x, y, z, f) {
        proof {
            lemma_cell_index_bounds(n as int, x as int, y as int, z as int);
        }
        let ci = block_index(n, x, y, z);
        let b = blocks[ci];
        let px = ox + x as u32;
        let py = oy + y as u32;
        let pz = oz + z as u32;
        emit_face(verts, &b, px, py, pz, f);
        emit_fan(inds, *faces);
        *faces = *faces + 1;
    } else {
        proof {
            assert(verts@ =~= verts@ + Seq::<CubeVtx>::empty());
        }
    }
}

/// Mesh a single cell: append the quads of its visible faces, in the fixed
/// face order, with one index fan per face, and count the faces.
fn mesh_cell(
    verts: &mut Vec<CubeVtx>,
    inds: &mut Vec<u32>,
    faces: &mut usize,
    blocks: &Vec<Block>,
    n: usize,
    x: usize,
    y: usize,
    z: usize,
    ox: u32,
    oy: u32,
    oz: u32,
)
    requires
        1 <= n,
        n * n * n <= usize::MAX,
        blocks@.len() == n * n * n,
        x < n,
        y < n,
        z < n,
        ox + n <= u32::MAX,
        oy + n <= u32::MAX,
        oz + n <= u32::MAX,
        4 * (*old(faces) + 6) <= u32::MAX,
        old(inds)@ == fan_indices(*old(faces) as int),
    ensures
        final(verts)@ == old(verts)@ + cell_verts(
            blocks@,
            n as int,
            ox as int,
            oy as int,
            oz as int,
            x as int,
            y as int,
            z as int,
        ),
        *final(faces) == *old(faces) + cell_face_count(
            blocks@,
            n as int,
            x as int,
            y as int,
            z as int,
        ),
        final(inds)@ == fan_indices(*final(faces) as int),
{
    let ghost nn: int = n as int;
    let ghost oxi: int = ox as int;
    let ghost oyi: int = oy as int;
    let ghost ozi: int = oz as int;
    proof {
        lemma_cell_index_bounds(nn, x as int, y as int, z as int);
    }
    let ci = block_index(n, x, y, z);
    let ghost pre_verts = verts@;
    let ghost cellv = cell_verts(blocks@, nn, oxi, oyi, ozi, x as int, y as int, z as int);
    let ghost q1 = maybe_quad(blocks@, nn, oxi, oyi, ozi, x as int, y as int, z as int, CubeFace::LEFT);
    let ghost q2 = maybe_quad(blocks@, nn, oxi, oyi, ozi, x as int, y as int, z as int, CubeFace::BOTTOM);
    let ghost q3 = maybe_quad(blocks@, nn, oxi, oyi, ozi, x as int, y as int, z as int, CubeFace::FRONT);
    let ghost q4 = maybe_quad(blocks@, nn, oxi, oyi, ozi, x as int, y as int, z as int, CubeFace::RIGHT);
    let ghost q5 = maybe_quad(blocks@, nn, oxi, oyi, ozi, x as int, y as int, z as int, CubeFace::TOP);
    let ghost q6 = maybe_quad(blocks@, nn, oxi, oyi, ozi, x as int, y as int, z as int, CubeFace::BACK);
    if blocks[ci].mesh == MeshType::Cube {
        mesh_face(verts, inds, faces, blocks, n, x, y, z, ox, oy, oz, CubeFace::LEFT);
        mesh_face(verts, inds, faces, blocks, n, x, y, z, ox, oy, oz, CubeFace::BOTTOM);
        mesh_face(verts, inds, faces, blocks, n, x, y, z, ox, oy, oz, CubeFace::FRONT);
        mesh_face(verts, inds, faces, blocks, n, x, y, z, ox, oy, oz, CubeFace::RIGHT);
        mesh_face(verts, inds, faces, blocks, n, x, y, z, ox, oy, oz, CubeFace::TOP);
        mesh_face(verts, inds, faces, blocks, n, x, y, z, ox, oy, oz, CubeFace::BACK);
        proof {
            lemma_concat_six(pre_verts, q1, q2, q3, q4, q5, q6);
            assert(cellv == q1 + q2 + q3 + q4 + q5 + q6);
        }
    } else {
        proof {
            assert(cellv =~= Seq::<CubeVtx>::empty());
            assert(pre_verts + cellv =~= pre_verts);
        }
    }
}

/// Build the geometry of one `n`-edged block grid whose minimum corner sits
/// at world position `position`: the vertices of exactly the visible faces,
/// cells in `x`-outer, `y`-middle, `z`-inner order, and the fan indices of
/// as many faces.
pub fn mesh_chunk(position: [u32; 3], n: usize, blocks: &Vec<Block>) -> (r: (Vec<CubeVtx>, Vec<u32>))
    requires
        1 <= n <= 512,
        blocks@.len() == n * n * n,
        position[0] + n <= u32::MAX,
        position[1] + n <= u32::MAX,
        position[2] + n <= u32::MAX,
    ensures
        r.0@ == chunk_verts(
            blocks@,
            n as int,
            position[0] as int,
            position[1] as int,
            position[2] as int,
            n as int,
        ),
        r.1@ == fan_indices(chunk_faces(blocks@, n as int, n as int)),
        r.0@.len() == 4 * chunk_faces(blocks@, n as int, n as int),
{
    let ox = position[0];
    let oy = position[1];
    let oz = position[2];
    let ghost nn: int = n as int;
    let ghost oxi: int = ox as int;
    let ghost oyi: int = oy as int;
    let ghost ozi: int = oz as int;
    proof {
        assert(nn * nn * nn <= 512 * 512 * 512) by (nonlinear_arith)
            requires 1 <= nn <= 512;
    }
    let mut verts: Vec<CubeVtx> = Vec::new();
    let mut inds: Vec<u32> = Vec::new();
    let mut faces: usize = 0;
    for x in 0..n
        invariant
            1 <= n <= 512,
            nn == n as int,
            nn * nn * nn <= 0x800_0000,
            blocks@.len() == nn * nn * nn,
            oxi == ox as int,
            oyi == oy as int,
            ozi == oz as int,
            ox + n <= u32::MAX,
            oy + n <= u32::MAX,
            oz + n <= u32::MAX,
            faces as int == chunk_faces(blocks@, nn, x as int),
            verts@ == chunk_verts(blocks@, nn, oxi, oyi, ozi, x as int),
            inds@ == fan_indices(faces as int),
    {
        for y in 0..n
            invariant
                1 <= n <= 512,
                nn == n as int,
                nn * nn * nn <= 0x800_0000,
                blocks@.len() == nn * nn * nn,
                oxi == ox as int,
                oyi == oy as int,
                ozi == oz as int,
                ox + n <= u32::MAX,
                oy + n <= u32::MAX,
                oz + n <= u32::MAX,
                x < n,
                faces as int == chunk_faces(blocks@, nn, x as int) + plane_faces(
                    blocks@,
                    nn,
                    x as int,
                    y as int,
                ),
                verts@ == chunk_verts(blocks@, nn, oxi, oyi, ozi, x as int) + plane_verts(
                    blocks@,
                    nn,
                    oxi,
                    oyi,
                    ozi,
                    x as int,
                    y as int,
                ),
                inds@ == fan_indices(faces as int),
        {
            for z in 0..n
                invariant
                    1 <= n <= 512,
                    nn == n as int,
                    nn * nn * nn <= 0x800_0000,
                    blocks@.len() == nn * nn * nn,
                    oxi == ox as int,
                    oyi == oy as int,
                    ozi == oz as int,
                    ox + n <= u32::MAX,
                    oy + n <= u32::MAX,
                    oz + n <= u32::MAX,
                    x < n,
                    y < n,
                    faces as int == chunk_faces(blocks@, nn, x as int) + plane_faces(
                        blocks@,
                        nn,
                        x as int,
                        y as int,
                    ) + col_faces(blocks@, nn, x as int, y as int, z as int),
                    verts@ == chunk_verts(blocks@, nn, oxi, oyi, ozi, x as int) + plane_verts(
                        blocks@,
                        nn,
                        oxi,
                        oyi,
                        ozi,
                        x as int,
                        y as int,
                    ) + col_verts(blocks@, nn, oxi, oyi, ozi, x as int, y as int, z as int),
                    inds@ == fan_indices(faces as int),
            {
                proof {
                    lemma_chunk_faces_bound(blocks@, nn, x as int);
                    lemma_plane_faces_bound(blocks@, nn, x as int, y as int);
                    lemma_col_faces_bound(blocks@, nn, x as int, y as int, z as int);
                    assert(6 * nn * nn * (x as int) + 6 * nn * (y as int) + 6 * (z as int) + 6 <= 6
                        * nn * nn * nn) by (nonlinear_arith)
                        requires 0 <= x < nn, 0 <= y < nn, 0 <= z < nn;
                    assert(6 * nn * nn * nn <= 6 * 512 * 512 * 512) by (nonlinear_arith)
                        requires 1 <= nn <= 512;
                }
                let ghost pre_verts = verts@;
                let ghost cellv = cell_verts(
                    blocks@,
                    nn,
                    oxi,
                    oyi,
                    ozi,
                    x as int,
                    y as int,
                    z as int,
                );
                mesh_cell(&mut verts, &mut inds, &mut faces, blocks, n, x, y, z, ox, oy, oz);
                proof {
                    assert(col_verts(blocks@, nn, oxi, oyi, ozi, x as int, y as int, z as int + 1)
                        == col_verts(blocks@, nn, oxi, oyi, ozi, x as int, y as int, z as int)
                        + cellv);
                    assert(verts@ =~= chunk_verts(blocks@, nn, oxi, oyi, ozi, x as int)
                        + plane_verts(blocks@, nn, oxi, oyi, ozi, x as int, y as int) + col_verts(
                        blocks@,
                        nn,
                        oxi,
                        oyi,
                        ozi,
                        x as int,
                        y as int,
                        z as int + 1,
                    ));
                    assert(col_faces(blocks@, nn, x as int, y as int, z as int + 1) == col_faces(
                        blocks@,
                        nn,
                        x as int,
                        y as int,
                        z as int,
                    ) + cell_face_count(blocks@, nn, x as int, y as int, z as int));
                }
            }
            proof {
                assert(plane_verts(blocks@, nn, oxi, oyi, ozi, x as int, y as int + 1)
                    == plane_verts(blocks@, nn, oxi, oyi, ozi, x as int, y as int) + col_verts(
                    blocks@,
                    nn,
                    oxi,
                    oyi,
                    ozi,
                    x as int,
                    y as int,
                    nn,
                ));
                assert(verts@ =~= chunk_verts(blocks@, nn, oxi, oyi, ozi, x as int) + plane_verts(
                    blocks@,
                    nn,
                    oxi,
                    oyi,
                    ozi,
                    x as int,
                    y as int + 1,
                ));
            }
        }
        proof {
            assert(chunk_verts(blocks@, nn, oxi, oyi, ozi, x as int + 1) == chunk_verts(
                blocks@,
                nn,
                oxi,
                oyi,
                ozi,
                x as int,
            ) + plane_verts(blocks@, nn, oxi, oyi, ozi, x as int, nn));
            assert(verts@ =~= chunk_verts(blocks@, nn, oxi, oyi, ozi, x as int + 1));
        }
    }
    proof {
        lemma_chunk_verts_len(blocks@, nn, oxi, oyi, ozi, nn);
    }
    (verts, inds)
}


/// A cube block strictly inside the grid whose six neighbors are all opaque
/// emits no face and contributes no geometry, whatever its own transparency.
pub proof fn lemma_enclosed_block_emits_nothing(
    blocks: Seq<Block>,
    n: int,
    ox: int,
    oy: int,
    oz: int,
    x: int,
    y: int,
    z: int,
)
    requires
        0 < x < n - 1,
        0 < y < n - 1,
        0 < z < n - 1,
        !blocks[cell_index(n, x - 1, y, z)].transparent,
        !blocks[cell_index(n, x + 1, y, z)].transparent,
        !blocks[cell_index(n, x, y - 1, z)].transparent,
        !blocks[cell_index(n, x, y + 1, z)].transparent,
        !blocks[cell_index(n, x, y, z - 1)].transparent,
        !blocks[cell_index(n, x, y, z + 1)].transparent,
    ensures
        forall|f: CubeFace| !face_visible(blocks, n, x, y, z, f),
        cell_face_count(blocks, n, x, y, z) == 0,
        cell_verts(blocks, n, ox, oy, oz, x, y, z) == Seq::<CubeVtx>::empty(),
{
    assert forall|f: CubeFace| !face_visible(blocks, n, x, y, z, f) by {
        match f {
            CubeFace::LEFT => {},
            CubeFace::BOTTOM => {},
            CubeFace::FRONT => {},
            CubeFace::RIGHT => {},
            CubeFace::TOP => {},
            CubeFace::BACK => {},
        }
    }
    assert(cell_verts(blocks, n, ox, oy, oz, x, y, z) =~= Seq::<CubeVtx>::empty());
}

/// A face on the grid boundary is always visible, regardless of the block's
/// or any neighbor's transparency; a cube block there therefore emits at
/// least that face.
pub proof fn lemma_boundary_face_visible(
    blocks: Seq<Block>,
    n: int,
    x: int,
    y: int,
    z: int,
    f: CubeFace,
)
    requires
        face_on_boundary(n, x, y, z, f),
    ensures
        face_visible(blocks, n, x, y, z, f),
        blocks[cell_index(n, x, y, z)].mesh is Cube ==> cell_face_count(blocks, n, x, y, z) >= 1,
{
    if blocks[cell_index(n, x, y, z)].mesh is Cube {
        match f {
            CubeFace::LEFT => {},
            CubeFace::BOTTOM => {},
            CubeFace::FRONT => {},
            CubeFace::RIGHT => {},
            CubeFace::TOP => {},
            CubeFace::BACK => {},
        }
    }
}

/// Where an opaque block touches a transparent neighbor away from the
/// boundary, exactly the opaque block's face is visible: the transparent
/// block shows no face back toward the opaque one.
pub proof fn lemma_opaque_transparent_asymmetry(
    blocks: Seq<Block>,
    n: int,
    x: int,
    y: int,
    z: int,
    f: CubeFace,
)
    requires
        !face_on_boundary(n, x, y, z, f),
        !face_on_boundary(
            n,
            neighbor_cell(x, y, z, f).0,
            neighbor_cell(x, y, z, f).1,
            neighbor_cell(x, y, z, f).2,
            opposite_face(f),
        ),
        !blocks[cell_index(n, x, y, z)].transparent,
        blocks[cell_index(
            n,
            neighbor_cell(x, y, z, f).0,
            neighbor_cell(x, y, z, f).1,
            neighbor_cell(x, y, z, f).2,
        )].transparent,
    ensures
        face_visible(blocks, n, x, y, z, f),
        !face_visible(
            blocks,
            n,
            neighbor_cell(x, y, z, f).0,
            neighbor_cell(x, y, z, f).1,
            neighbor_cell(x, y, z, f).2,
            opposite_face(f),
        ),
{
    let nb = neighbor_cell(x, y, z, f);
    match f {
        CubeFace::LEFT => {
            assert(neighbor_cell(nb.0, nb.1, nb.2, opposite_face(f)) == (x, y, z));
        },
        CubeFace::BOTTOM => {
            assert(neighbor_cell(nb.0, nb.1, nb.2, opposite_face(f)) == (x, y, z));
        },
        CubeFace::FRONT => {
            assert(neighbor_cell(nb.0, nb.1, nb.2, opposite_face(f)) == (x, y, z));
        },
        CubeFace::RIGHT => {
            assert(neighbor_cell(nb.0, nb.1, nb.2, opposite_face(f)) == (x, y, z));
        },
        CubeFace::TOP => {
            assert(neighbor_cell(nb.0, nb.1, nb.2, opposite_face(f)) == (x, y, z));
        },
        CubeFace::BACK => {
            assert(neighbor_cell(nb.0, nb.1, nb.2, opposite_face(f)) == (x, y, z));
        },
    }
}

} // verus!

