//! The flat mesh that the surface is drawn on: one vertex per texel and two
//! triangles per grid cell.

use vstd::prelude::*;
use crate::grid::{Grid, lemma_grid_bounds};

verus! {

/// Index of the vertex at column `x`, row `y` of a mesh `scale` vertices wide.
pub open spec fn vertex_index(scale: nat, x: nat, y: nat) -> nat {
    x + y * scale
}

/// The `corner`-th of the six vertex indices of the cell whose lowest corner
/// is `(x, y)`: the triangle `(x, y)`, `(x+1, y+1)`, `(x, y+1)` followed by the
/// triangle `(x, y)`, `(x+1, y)`, `(x+1, y+1)`.
pub open spec fn cell_corner(scale: nat, x: nat, y: nat, corner: nat) -> nat {
    if corner == 0 || corner == 3 {
        vertex_index(scale, x, y)
    } else if corner == 1 || corner == 5 {
        vertex_index(scale, x + 1, y + 1)
    } else if corner == 2 {
        vertex_index(scale, x, y + 1)
    } else {
        vertex_index(scale, x + 1, y)
    }
}

/// Position in the index list of corner `corner` of the cell `(x, y)`.
pub open spec fn corner_position(scale: nat, x: nat, y: nat, corner: nat) -> int {
    6 * (y * (scale - 1) + x) + corner
}

/// The vertices and triangles of the mesh.
pub struct Mesh {
    /// Texel coordinates of each vertex, row by row.
    pub uvs: Vec<(u32, u32)>,
    /// Vertex indices, three per triangle.
    pub indices: Vec<u32>,
    /// Number of indices.
    pub length: usize,
}

impl Mesh {
    /// The mesh is the one that belongs to a grid of side `scale`.
    pub open spec fn is_mesh_of(&self, scale: nat) -> bool {
        &&& self.uvs@.len() == scale * scale
        &&& forall|x: nat, y: nat|
            x < scale && y < scale ==> #[trigger] self.uvs@[vertex_index(scale, x, y) as int] == (
                x as u32,
                y as u32,
            )
        &&& self.length == self.indices@.len()
        &&& self.indices@.len() == 6 * ((scale - 1) * (scale - 1))
        &&& forall|x: nat, y: nat, corner: nat|
            x < scale - 1 && y < scale - 1 && corner < 6 ==> #[trigger] self.indices@[corner_position(
                scale,
                x,
                y,
                corner,
            )] == cell_corner(scale, x, y, corner)
    }

    /// Builds the mesh for `grid`.
    pub fn new(grid: &Grid) -> (mesh: Mesh)
        requires
            grid.wf(),
        ensures
            mesh.is_mesh_of(grid.spec_size() as nat),
    {
        let scale = grid.size();
        proof {
            lemma_grid_bounds(*grid);
        }
        let mut uvs: Vec<(u32, u32)> = Vec::new();
        let mut z: u32 = 0;
        while z < scale
            invariant
                z <= scale,
                scale <= 0x8000,
                uvs@.len() == z * scale,
                forall|a: nat, b: nat|
                    a < scale && b < z ==> #[trigger] uvs@[vertex_index(scale as nat, a, b) as int]
                        == (a as u32, b as u32),
            decreases scale - z,
        {
            let mut x: u32 = 0;
            while x < scale
                invariant
                    z < scale,
                    x <= scale,
                    scale <= 0x8000,
                    uvs@.len() == z * scale + x,
                    forall|a: nat, b: nat|
                        a < scale && b < z ==> #[trigger] uvs@[vertex_index(
                            scale as nat,
                            a,
                            b,
                        ) as int] == (a as u32, b as u32),
                    forall|a: nat|
                        a < x ==> #[trigger] uvs@[vertex_index(scale as nat, a, z as nat) as int]
                            == (a as u32, z),
                decreases scale - x,
            {
                let ghost before = uvs@.len();
                uvs.push((x, z));
                proof {
                    assert forall|a: nat, b: nat| a < scale && b < z implies (
                    #[trigger] vertex_index(scale as nat, a, b)) < before by {
                        assert(a + b * scale < z * scale) by (nonlinear_arith)
                            requires
                                a < scale,
                                b < z,
                        ;
                    }
                }
                x = x + 1;
            }
            proof {
                assert((z + 1) * scale == z * scale + scale) by (nonlinear_arith);
            }
            z = z + 1;
        }
        let cells = scale - 1;
        let mut indices: Vec<u32> = Vec::new();
        let mut y: u32 = 0;
        while y < cells
            invariant
                y <= cells,
                cells == scale - 1,
                1 <= scale <= 0x8000,
                indices@.len() == 6 * (y * cells),
                forall|a: nat, b: nat, c: nat|
                    a < cells && b < y && c < 6 ==> #[trigger] indices@[corner_position(
                        scale as nat,
                        a,
                        b,
                        c,
                    )] == cell_corner(scale as nat, a, b, c),
            decreases cells - y,
        {
            let mut x: u32 = 0;
            while x < cells
                invariant
                    y < cells,
                    x <= cells,
                    cells == scale - 1,
                    1 <= scale <= 0x8000,
                    indices@.len() == 6 * (y * cells + x),
                    forall|a: nat, b: nat, c: nat|
                        a < cells && b < y && c < 6 ==> #[trigger] indices@[corner_position(
                            scale as nat,
                            a,
                            b,
                            c,
                        )] == cell_corner(scale as nat, a, b, c),
                    forall|a: nat, c: nat|
                        a < x && c < 6 ==> #[trigger] indices@[corner_position(
                            scale as nat,
                            a,
                            y as nat,
                            c,
                        )] == cell_corner(scale as nat, a, y as nat, c),
                decreases cells - x,
            {
                let ghost before = indices@.len();
                proof {
                    assert((y + 1) * scale + (x + 1) < 0x4000_0000) by (nonlinear_arith)
                        requires
                            y + 1 < scale,
                            x + 1 < scale,
                            scale <= 0x8000,
                    ;
                    assert(y * scale <= (y + 1) * scale) by (nonlinear_arith);
                }
                indices.push(x + y * scale);
                indices.push((x + 1) + (y + 1) * scale);
                indices.push(x + (y + 1) * scale);
                indices.push(x + y * scale);
                indices.push((x + 1) + y * scale);
                indices.push((x + 1) + (y + 1) * scale);
                proof {
                    assert forall|a: nat, b: nat, c: nat| a < cells && b < y && c < 6 implies 0 <= (
                    #[trigger] corner_position(scale as nat, a, b, c)) < before by {
                        assert(b * cells + a < y * cells) by (nonlinear_arith)
                            requires
                                a < cells,
                                b < y,
                        ;
                    }
                }
                x = x + 1;
            }
            proof {
                assert((y + 1) * cells == y * cells + cells) by (nonlinear_arith);
            }
            y = y + 1;
        }
        let length = indices.len();
        Mesh { uvs, indices, length }
    }
}

/// Every index of the mesh names one of its vertices.
pub proof fn lemma_cell_corner_in_range(scale: nat, x: nat, y: nat, corner: nat)
    requires
        x + 1 < scale,
        y + 1 < scale,
        corner < 6,
    ensures
        cell_corner(scale, x, y, corner) < scale * scale,
{
    assert((x + 1) + (y + 1) * scale < scale * scale) by (nonlinear_arith)
        requires
            x + 1 < scale,
            y + 1 < scale,
    ;
    assert(y * scale <= (y + 1) * scale) by (nonlinear_arith);
}

} // verus!
