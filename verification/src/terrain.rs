//! Topology of the terrain mesh: a square grid of `size` by `size` cells,
//! with `size + 1` vertices on each side, each cell covered by two triangles.
//!
//! Vertices are laid out row by row: vertex `z * (size + 1) + x` sits at grid
//! column `x` and row `z`. The index buffer lists the cells in the same order,
//! six indices per cell.
use vstd::prelude::*;
use vstd::arithmetic::div_mod::{
    lemma_fundamental_div_mod_converse_div,
    lemma_fundamental_div_mod_converse_mod,
};

verus! {

/// Number of cells along each side of the terrain.
pub const SIZE: usize = 128;

/// Number of vertices along each side of a grid of `size` cells.
pub open spec fn side(size: nat) -> nat {
    size + 1
}

/// Index of the vertex at column `x`, row `z`.
pub open spec fn vertex_at(size: nat, x: nat, z: nat) -> nat {
    z * side(size) + x
}

/// Grid position `(column, row)` of vertex `v`.
pub open spec fn position_of(size: nat, v: nat) -> (nat, nat) {
    ((v % side(size)) as nat, (v / side(size)) as nat)
}

/// The `k`-th of the six indices that cover cell `(x, z)`: the triangles
/// `(a, c, b)` and `(b, c, d)`, where `a` is the cell's corner at `(x, z)`,
/// `b` its neighbour along `x`, `c` its neighbour along `z`, and `d` the
/// opposite corner.
pub open spec fn cell_index(size: nat, x: nat, z: nat, k: nat) -> nat {
    let a = vertex_at(size, x, z);
    let b = a + 1;
    let c = a + side(size);
    let d = c + 1;
    if k == 0 {
        a
    } else if k == 1 {
        c
    } else if k == 2 {
        b
    } else if k == 3 {
        b
    } else if k == 4 {
        c
    } else {
        d
    }
}

/// Entry `i` of the index buffer: cells row by row, six entries per cell.
pub open spec fn grid_index(size: nat, i: nat) -> nat {
    let cell = i / 6;
    cell_index(size, cell % size, cell / size, i % 6)
}

/// Entry `i` of a cell's six indices, given as the grid position it names:
/// `(x, z), (x, z + 1), (x + 1, z)` and `(x + 1, z), (x, z + 1), (x + 1, z + 1)`.
pub open spec fn cell_corner(x: nat, z: nat, k: nat) -> (nat, nat) {
    if k == 0 {
        (x, z)
    } else if k == 1 {
        (x, z + 1)
    } else if k == 2 {
        (x + 1, z)
    } else if k == 3 {
        (x + 1, z)
    } else if k == 4 {
        (x, z + 1)
    } else {
        (x + 1, z + 1)
    }
}

/// Twice the signed area of the triangle `p, q, r` in the `(x, z)` plane.
pub open spec fn doubled_signed_area(p: (nat, nat), q: (nat, nat), r: (nat, nat)) -> int {
    (q.0 - p.0) * (r.1 - p.1) - (q.1 - p.1) * (r.0 - p.0)
}

/// Entry `6 * (z * size + x) + k` of the index buffer is entry `k` of cell `(x, z)`.
proof fn lemma_entry_of_cell(size: nat, x: nat, z: nat, k: nat)
    requires
        x < size,
        k < 6,
    ensures
        grid_index(size, 6 * (z * size + x) + k) == cell_index(size, x, z, k),
{
    let cell = z * size + x;
    let i = 6 * cell + k;
    assert(i == cell * 6 + k) by (nonlinear_arith)
        requires
            i == 6 * cell + k,
    ;
    lemma_fundamental_div_mod_converse_div(i as int, 6, cell as int, k as int);
    lemma_fundamental_div_mod_converse_mod(i as int, 6, cell as int, k as int);
    lemma_fundamental_div_mod_converse_div(cell as int, size as int, z as int, x as int);
    lemma_fundamental_div_mod_converse_mod(cell as int, size as int, z as int, x as int);
}

/// The vertex at column `x < size + 1`, row `z` lies at position `(x, z)`.
proof fn lemma_position_of_vertex(size: nat, x: nat, z: nat)
    requires
        x < side(size),
    ensures
        position_of(size, vertex_at(size, x, z)) == (x, z),
{
    lemma_fundamental_div_mod_converse_div(vertex_at(size, x, z) as int, side(size) as int, z as int, x as int);
    lemma_fundamental_div_mod_converse_mod(vertex_at(size, x, z) as int, side(size) as int, z as int, x as int);
}

/// The largest index that a cell `(x, z)` with `x, z < size` uses is below
/// `(size + 1) * (size + 1)`.
proof fn lemma_cell_indices_in_range(size: nat, x: nat, z: nat)
    requires
        x < size,
        z < size,
    ensures
        vertex_at(size, x, z) + side(size) + 1 < side(size) * side(size),
{
    let s = side(size);
    assert(z * s + x + s + 1 < s * s) by (nonlinear_arith)
        requires
            x + 1 < s,
            z + 1 < s,
            s == size + 1,
    ;
}

/// Every entry of the index buffer names a vertex of the grid.
pub proof fn lemma_indices_name_vertices(size: nat, i: nat)
    requires
        i < 6 * size * size,
    ensures
        grid_index(size, i) < side(size) * side(size),
{
    let cell = i / 6;
    assert(size > 0) by (nonlinear_arith)
        requires
            i < 6 * size * size,
    ;
    assert(cell < size * size) by (nonlinear_arith)
        requires
            i < 6 * size * size,
            cell == i / 6,
    ;
    let x = cell % size;
    let z = cell / size;
    assert(z < size) by (nonlinear_arith)
        requires
            cell < size * size,
            z == cell / size,
            size > 0,
    ;
    assert(x < size) by (nonlinear_arith)
        requires
            x == cell % size,
            size > 0,
    ;
    lemma_cell_indices_in_range(size, x, z);
}

/// The six entries of cell `(x, z)` name, in order, the vertices at
/// `(x, z), (x, z + 1), (x + 1, z)` and `(x + 1, z), (x, z + 1), (x + 1, z + 1)`.
pub proof fn lemma_cell_corners(size: nat, x: nat, z: nat, k: nat)
    requires
        x < size,
        z < size,
        k < 6,
    ensures
        position_of(size, grid_index(size, 6 * (z * size + x) + k)) == cell_corner(x, z, k),
{
    lemma_entry_of_cell(size, x, z, k);
    let s = side(size);
    assert(vertex_at(size, x, z) + s == vertex_at(size, x, z + 1)) by (nonlinear_arith)
        requires
            s == side(size),
    ;
    assert(vertex_at(size, x, z) + 1 == vertex_at(size, x + 1, z));
    assert(vertex_at(size, x, z) + s + 1 == vertex_at(size, x + 1, z + 1)) by (nonlinear_arith)
        requires
            s == side(size),
    ;
    lemma_position_of_vertex(size, x, z);
    lemma_position_of_vertex(size, x + 1, z);
    lemma_position_of_vertex(size, x, z + 1);
    lemma_position_of_vertex(size, x + 1, z + 1);
}

/// Both triangles of every cell wind the same way: each has doubled signed
/// area `-1` in the `(x, z)` plane, so none is degenerate and all face the
/// same side of the grid.
pub proof fn lemma_uniform_winding(size: nat, x: nat, z: nat, t: nat)
    requires
        x < size,
        z < size,
        t < 2,
    ensures
        ({
            let first = 6 * (z * size + x) + 3 * t;
            doubled_signed_area(
                position_of(size, grid_index(size, first)),
                position_of(size, grid_index(size, first + 1)),
                position_of(size, grid_index(size, first + 2)),
            ) == -1
        }),
{
    let base = 6 * (z * size + x);
    let first = base + 3 * t;
    let p = position_of(size, grid_index(size, first));
    let q = position_of(size, grid_index(size, first + 1));
    let r = position_of(size, grid_index(size, first + 2));
    if t == 0 {
        lemma_cell_corners(size, x, z, 0);
        lemma_cell_corners(size, x, z, 1);
        lemma_cell_corners(size, x, z, 2);
        assert(p == (x, z));
        assert(q == (x, z + 1));
        assert(r == (x + 1, z));
    } else {
        lemma_cell_corners(size, x, z, 3);
        lemma_cell_corners(size, x, z, 4);
        lemma_cell_corners(size, x, z, 5);
        assert(p == (x + 1, z));
        assert(q == (x, z + 1));
        assert(r == (x + 1, z + 1));
    }
    assert(doubled_signed_area(p, q, r) == -1) by (nonlinear_arith)
        requires
            (p == (x, z) && q == (x, z + 1) && r == (x + 1, z)) || (p == (x + 1, z) && q == (x, z + 1) && r
                == (x + 1, z + 1)),
    ;
}

/// The grid position of every vertex, in buffer order: row by row, `size + 1`
/// vertices per row.
pub fn grid_vertices(size: usize) -> (vertices: Vec<(usize, usize)>)
    requires
        size < usize::MAX,
    ensures
        vertices@.len() == side(size as nat) * side(size as nat),
        forall|v: int|
            0 <= v < vertices@.len() ==> (#[trigger] vertices@[v]).0 == position_of(size as nat, v as nat).0
                && vertices@[v].1 == position_of(size as nat, v as nat).1,
        forall|x: nat, z: nat|
            x < side(size as nat) && z < side(size as nat) ==> #[trigger] vertices@[vertex_at(size as nat, x, z) as int]
                == (x as usize, z as usize),
{
    let per_side = size + 1;
    let ghost s = side(size as nat);
    let mut vertices: Vec<(usize, usize)> = Vec::new();
    let mut z: usize = 0;
    while z <= size
        invariant
            z <= per_side,
            per_side == size + 1,
            s == per_side,
            vertices@.len() == z * s,
            forall|v: int|
                0 <= v < vertices@.len() ==> (#[trigger] vertices@[v]).0 == position_of(size as nat, v as nat).0
                    && vertices@[v].1 == position_of(size as nat, v as nat).1,
        decreases per_side - z,
    {
        let mut x: usize = 0;
        while x <= size
            invariant
                x <= per_side,
                z < per_side,
                per_side == size + 1,
                s == per_side,
                    vertices@.len() == z * s + x,
                forall|v: int|
                    0 <= v < vertices@.len() ==> (#[trigger] vertices@[v]).0 == position_of(size as nat, v as nat).0
                        && vertices@[v].1 == position_of(size as nat, v as nat).1,
            decreases per_side - x,
        {
            proof {
                lemma_position_of_vertex(size as nat, x as nat, z as nat);
            }
            vertices.push((x, z));
            x += 1;
        }
        assert(z * s + s == (z + 1) * s) by (nonlinear_arith);
        z += 1;
    }
    assert forall|x: nat, z: nat| x < s && z < s implies #[trigger] vertices@[vertex_at(size as nat, x, z) as int]
        == (x as usize, z as usize) by {
        lemma_position_of_vertex(size as nat, x, z);
        assert(vertex_at(size as nat, x, z) < s * s) by (nonlinear_arith)
            requires
                x < s,
                z < s,
                vertex_at(size as nat, x, z) == z * s + x,
        ;
    }
    vertices
}

/// The triangle list that covers the grid: for each cell, row by row, the
/// triangles `(a, c, b)` and `(b, c, d)` of [`cell_index`].
pub fn grid_indices(size: usize) -> (indices: Vec<u32>)
    requires
        size < 0x1_0000,
    ensures
        indices@.len() == 6 * size * size,
        forall|i: int|
            0 <= i < indices@.len() ==> #[trigger] indices@[i] as nat == grid_index(size as nat, i as nat),
{
    let per_side = size + 1;
    let ghost n = size as nat;
    let mut indices: Vec<u32> = Vec::new();
    let mut z: usize = 0;
    while z < size
        invariant
            z <= size,
            per_side == size + 1,
            n == size,
            size < 0x1_0000,
            indices@.len() == 6 * (z * n),
            forall|i: int|
                0 <= i < indices@.len() ==> #[trigger] indices@[i] as nat == grid_index(n, i as nat),
        decreases size - z,
    {
        let mut x: usize = 0;
        while x < size
            invariant
                x <= size,
                z < size,
                per_side == size + 1,
                n == size,
                size < 0x1_0000,
                indices@.len() == 6 * (z * n + x),
                forall|i: int|
                    0 <= i < indices@.len() ==> #[trigger] indices@[i] as nat == grid_index(n, i as nat),
            decreases size - x,
        {
            proof {
                lemma_cell_indices_in_range(n, x as nat, z as nat);
                assert(side(n) * side(n) <= 0x1_0000 * 0x1_0000) by (nonlinear_arith)
                    requires
                        side(n) <= 0x1_0000,
                ;
            }
            let a = z * per_side + x;
            let b = a + 1;
            let c = a + per_side;
            let d = c + 1;
            let ghost start = indices@.len();
            indices.push(a as u32);
            indices.push(c as u32);
            indices.push(b as u32);
            indices.push(b as u32);
            indices.push(c as u32);
            indices.push(d as u32);
            proof {
                assert forall|k: nat| k < 6 implies #[trigger] indices@[(start + k) as int] as nat == grid_index(
                    n,
                    (start + k) as nat,
                ) by {
                    lemma_entry_of_cell(n, x as nat, z as nat, k);
                }
                assert forall|i: int| 0 <= i < indices@.len() implies #[trigger] indices@[i] as nat
                    == grid_index(n, i as nat) by {
                    if i >= start {
                        let k = (i - start) as nat;
                        assert(indices@[(start + k) as int] as nat == grid_index(n, (start + k) as nat));
                    }
                }
            }
            x += 1;
        }
        assert(6 * (z * n + n) == 6 * ((z + 1) * n)) by (nonlinear_arith);
        z += 1;
    }
    assert(6 * (z * n) == 6 * size * size) by (nonlinear_arith)
        requires
            z == size,
            n == size,
    ;
    indices
}

/// Grid positions of the terrain's vertices, in buffer order.
pub fn terrain_vertices() -> (vertices: Vec<(usize, usize)>)
    ensures
        vertices@.len() == side(SIZE as nat) * side(SIZE as nat),
        forall|v: int|
            0 <= v < vertices@.len() ==> (#[trigger] vertices@[v]).0 == position_of(SIZE as nat, v as nat).0
                && vertices@[v].1 == position_of(SIZE as nat, v as nat).1,
        forall|x: nat, z: nat|
            x < side(SIZE as nat) && z < side(SIZE as nat) ==> #[trigger] vertices@[vertex_at(SIZE as nat, x, z) as int]
                == (x as usize, z as usize),
{
    grid_vertices(SIZE)
}

/// The terrain's triangle list.
pub fn terrain_indices() -> (indices: Vec<u32>)
    ensures
        indices@.len() == 6 * SIZE * SIZE,
        forall|i: int|
            0 <= i < indices@.len() ==> #[trigger] indices@[i] as nat == grid_index(SIZE as nat, i as nat),
{
    grid_indices(SIZE)
}

} // verus!
