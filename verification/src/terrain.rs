use vstd::prelude::*;
use vstd::arithmetic::div_mod::lemma_fundamental_div_mod_converse;
use vstd::arithmetic::div_mod::lemma_fundamental_div_mod;
use vstd::arithmetic::div_mod::lemma_mod_pos_bound;
use vstd::arithmetic::div_mod::lemma_div_pos_is_pos;

verus! {

/// The index of the vertex in column `x` and row `z` of a grid whose rows hold
/// `n` vertices (vertices are laid out row by row).
pub open spec fn grid_vertex(n: int, x: int, z: int) -> int {
    x + z * n
}

/// The `j`-th of the six indices that the quad with lower corner `(x, z)`
/// contributes: the triangles `(v, v + n, v + 1)` and `(v + 1, v + n, v + n + 1)`
/// where `v` is the corner's vertex.
pub open spec fn quad_corner(n: int, x: int, z: int, j: int) -> int {
    let v = grid_vertex(n, x, z);
    if j == 0 {
        v
    } else if j == 1 {
        v + n
    } else if j == 2 {
        v + 1
    } else if j == 3 {
        v + 1
    } else if j == 4 {
        v + n
    } else {
        v + n + 1
    }
}

/// Entry `k` of the terrain index buffer of a grid of side `n`: the quads come
/// row by row (`z` outer, `x` inner), `n - 1` quads per row, six indices each.
pub open spec fn terrain_index_at(n: int, k: int) -> u32 {
    let quad = k / 6;
    quad_corner(n, quad % (n - 1), quad / (n - 1), k % 6) as u32
}

/// The number of indices in the buffer of a grid of side `n`.
pub open spec fn terrain_index_count(n: nat) -> nat {
    if n < 2 {
        0
    } else {
        (6 * (n - 1) * (n - 1)) as nat
    }
}

/// The whole terrain index buffer of a grid of side `n`.
pub open spec fn terrain_indices_spec(n: nat) -> Seq<u32> {
    Seq::new(terrain_index_count(n), |k: int| terrain_index_at(n as int, k))
}

proof fn lemma_index_position(n: int, x: int, z: int, j: int)
    requires
        n >= 2,
        0 <= x < n - 1,
        0 <= z,
        0 <= j < 6,
    ensures
        terrain_index_at(n, 6 * ((n - 1) * z + x) + j) == quad_corner(n, x, z, j) as u32,
{
    let c = n - 1;
    let q = c * z + x;
    assert(c * z == z * c) by (nonlinear_arith);
    lemma_fundamental_div_mod_converse(6 * q + j, 6, q, j);
    lemma_fundamental_div_mod_converse(q, c, z, x);
}

/// Builds the index buffer of the terrain mesh: a square grid of `side` by
/// `side` vertices, each quad split into two triangles.
pub fn terrain_indices(side: u16) -> (indices: Vec<u32>)
    ensures
        indices@ == terrain_indices_spec(side as nat),
{
    let mut indices: Vec<u32> = Vec::new();
    if side < 2 {
        assert(indices@ =~= terrain_indices_spec(side as nat));
        return indices;
    }
    let n: u32 = side as u32;
    let cells: u32 = n - 1;
    let mut z: u32 = 0;
    while z < cells
        invariant
            2 <= n <= 65535,
            n == side,
            cells == n - 1,
            z <= cells,
            indices@.len() == 6 * (cells * z),
            forall|k: int| 0 <= k < indices@.len() ==> indices@[k] == terrain_index_at(n as int, k),
        decreases cells - z,
    {
        let mut x: u32 = 0;
        while x < cells
            invariant
                2 <= n <= 65535,
                cells == n - 1,
                z < cells,
                x <= cells,
                indices@.len() == 6 * (cells * z + x),
                forall|k: int|
                    0 <= k < indices@.len() ==> indices@[k] == terrain_index_at(n as int, k),
            decreases cells - x,
        {
            assert(z * n + x + n + 1 <= 65535 * 65535) by (nonlinear_arith)
                requires
                    z < n - 1,
                    x < n - 1,
                    n <= 65535,
            ;
            let v: u32 = x + z * n;
            let ghost start = indices@.len();
            proof {
                assert forall|j: int| 0 <= j < 6 implies terrain_index_at(n as int, start + j)
                    == quad_corner(n as int, x as int, z as int, j) as u32 by {
                    lemma_index_position(n as int, x as int, z as int, j);
                }
            }
            indices.push(v);
            indices.push(v + n);
            indices.push(v + 1);
            indices.push(v + 1);
            indices.push(v + n);
            indices.push(v + n + 1);
            proof {
                assert forall|k: int| 0 <= k < indices@.len() implies indices@[k]
                    == terrain_index_at(n as int, k) by {
                    if k >= start {
                        assert(terrain_index_at(n as int, start + (k - start)) == quad_corner(
                            n as int,
                            x as int,
                            z as int,
                            k - start,
                        ) as u32);
                    }
                }
                assert(6 * (cells * z + x) + 6 == 6 * (cells * z + (x + 1)));
            }
            x = x + 1;
        }
        assert(cells * z + cells == cells * (z + 1)) by (nonlinear_arith);
        z = z + 1;
    }
    assert(6 * (cells * cells) == 6 * (cells as int) * (cells as int)) by (nonlinear_arith);
    assert(indices@ =~= terrain_indices_spec(side as nat));
    indices
}

/// Where the vertices of the `i`-th platform copy start in a merged vertex
/// buffer whose platforms hold `vertex_count` vertices each; the offset is kept
/// in 32 bits, as the index buffer is.
pub open spec fn copy_offset(i: int, vertex_count: int) -> u32 {
    (i * vertex_count) as u32
}

/// Entry `k` of the merged index buffer: index `k % m` of the platform's own
/// buffer (of length `m`), shifted to the copy `k / m`.
pub open spec fn merged_index_at(base: Seq<u32>, vertex_count: int, k: int) -> u32 {
    let m = base.len() as int;
    (base[k % m] + copy_offset(k / m, vertex_count)) as u32
}

/// The index buffer of `copies` platforms merged into one mesh: the platform's
/// own buffer repeated once per copy, each repetition shifted past the
/// vertices of the copies before it.
pub open spec fn merged_indices_spec(base: Seq<u32>, vertex_count: int, copies: int) -> Seq<u32> {
    Seq::new((copies * base.len()) as nat, |k: int| merged_index_at(base, vertex_count, k))
}

/// Merges the index buffers of `copies` platforms that each have
/// `vertex_count` vertices and the index buffer `base` into the index buffer of
/// one mesh.
pub fn merge_platform_indices(base: &Vec<u32>, vertex_count: usize, copies: usize) -> (merged: Vec<
    u32,
>)
    requires
        copies == 0 || (copies - 1) * vertex_count <= usize::MAX,
        forall|i: int, j: int|
            #![trigger base@[j], copy_offset(i, vertex_count as int)]
            0 <= i < copies && 0 <= j < base@.len() ==> base@[j] + copy_offset(
                i,
                vertex_count as int,
            ) <= u32::MAX,
    ensures
        merged@ == merged_indices_spec(base@, vertex_count as int, copies as int),
{
    let mut merged: Vec<u32> = Vec::new();
    let m: usize = base.len();
    let mut i: usize = 0;
    while i < copies
        invariant
            m == base@.len(),
            i <= copies,
            copies == 0 || (copies - 1) * vertex_count <= usize::MAX,
            forall|i2: int, j: int|
                #![trigger base@[j], copy_offset(i2, vertex_count as int)]
                0 <= i2 < copies && 0 <= j < base@.len() ==> base@[j] + copy_offset(
                    i2,
                    vertex_count as int,
                ) <= u32::MAX,
            merged@.len() == i * m,
            forall|k: int|
                0 <= k < merged@.len() ==> merged@[k] == merged_index_at(
                    base@,
                    vertex_count as int,
                    k,
                ),
        decreases copies - i,
    {
        assert(i * vertex_count <= (copies - 1) * vertex_count) by (nonlinear_arith)
            requires
                i < copies,
                0 <= vertex_count,
        ;
        let product: usize = i * vertex_count;
        let offset: u32 = product as u32;
        assert(offset == copy_offset(i as int, vertex_count as int));
        let mut j: usize = 0;
        while j < m
            invariant
                m == base@.len(),
                i < copies,
                j <= m,
                offset == copy_offset(i as int, vertex_count as int),
                forall|i2: int, j2: int|
                    #![trigger base@[j2], copy_offset(i2, vertex_count as int)]
                    0 <= i2 < copies && 0 <= j2 < base@.len() ==> base@[j2] + copy_offset(
                        i2,
                        vertex_count as int,
                    ) <= u32::MAX,
                merged@.len() == i * m + j,
                forall|k: int|
                    0 <= k < merged@.len() ==> merged@[k] == merged_index_at(
                        base@,
                        vertex_count as int,
                        k,
                    ),
            decreases m - j,
        {
            assert(base@[j as int] + copy_offset(i as int, vertex_count as int) <= u32::MAX);
            let value: u32 = base[j] + offset;
            proof {
                let k = i * m + j;
                assert(k == i * m + j);
                lemma_fundamental_div_mod_converse(k, m as int, i as int, j as int);
            }
            merged.push(value);
            j = j + 1;
        }
        assert(i * m + m == (i + 1) * m) by (nonlinear_arith);
        i = i + 1;
    }
    assert(merged@ =~= merged_indices_spec(base@, vertex_count as int, copies as int));
    merged
}

/// When the platform's own indices name its `vertex_count` vertices and the
/// merged vertex buffer fits 32-bit indices, every entry of the merged index
/// buffer names one of the `copies * vertex_count` merged vertices.
pub proof fn lemma_merged_indices_in_range(base: Seq<u32>, vertex_count: int, copies: int)
    requires
        0 <= copies,
        0 <= vertex_count,
        copies * vertex_count <= 0x1_0000_0000,
        forall|j: int| 0 <= j < base.len() ==> #[trigger] base[j] < vertex_count,
    ensures
        forall|k: int|
            0 <= k < merged_indices_spec(base, vertex_count, copies).len() ==> (
            #[trigger] merged_indices_spec(base, vertex_count, copies)[k]) < copies * vertex_count,
{
    let m = base.len() as int;
    assert forall|k: int|
        0 <= k < merged_indices_spec(base, vertex_count, copies).len() implies (
        #[trigger] merged_indices_spec(base, vertex_count, copies)[k]) < copies * vertex_count by {
        assert(k < copies * m);
        assert(m > 0) by (nonlinear_arith)
            requires
                0 <= k < copies * m,
                0 <= copies,
        ;
        let i = k / m;
        let j = k % m;
        lemma_fundamental_div_mod(k, m);
        lemma_mod_pos_bound(k, m);
        lemma_div_pos_is_pos(k, m);
        assert(i < copies) by (nonlinear_arith)
            requires
                k == m * i + j,
                0 <= j,
                k < copies * m,
                m > 0,
        ;
        assert(base[j] < vertex_count);
        assert(i * vertex_count + vertex_count <= copies * vertex_count) by (nonlinear_arith)
            requires
                0 <= i < copies,
                0 <= vertex_count,
        ;
        assert(0 <= i * vertex_count) by (nonlinear_arith)
            requires
                0 <= i,
                0 <= vertex_count,
        ;
        assert(copy_offset(i, vertex_count) == i * vertex_count);
    }
}

/// Every quad `(x, z)` of the grid, in every row, holds at its place
/// `6 * ((n - 1) * z + x)` of the buffer the two triangles `(v, v + n, v + 1)`
/// and `(v + 1, v + n, v + n + 1)` with `v = x + z * n`: all quads are wound
/// the same way.
pub proof fn lemma_terrain_quad_winding(side: u16, x: int, z: int)
    requires
        0 <= x < side - 1,
        0 <= z < side - 1,
    ensures
        6 * ((side - 1) * z + x) + 5 < terrain_indices_spec(side as nat).len(),
        terrain_indices_spec(side as nat)[6 * ((side - 1) * z + x)] == x + z * side,
        terrain_indices_spec(side as nat)[6 * ((side - 1) * z + x) + 1] == x + z * side + side,
        terrain_indices_spec(side as nat)[6 * ((side - 1) * z + x) + 2] == x + z * side + 1,
        terrain_indices_spec(side as nat)[6 * ((side - 1) * z + x) + 3] == x + z * side + 1,
        terrain_indices_spec(side as nat)[6 * ((side - 1) * z + x) + 4] == x + z * side + side,
        terrain_indices_spec(side as nat)[6 * ((side - 1) * z + x) + 5] == x + z * side + side + 1,
{
    let n = side as int;
    let c = n - 1;
    assert(6 * (c * z + x) + 5 < 6 * c * c) by (nonlinear_arith)
        requires
            0 <= x < c,
            0 <= z < c,
    ;
    assert(x + z * n + n + 1 <= 65535 * 65535) by (nonlinear_arith)
        requires
            0 <= x < n - 1,
            0 <= z < n - 1,
            n <= 65535,
    ;
    assert(0 <= x + z * n) by (nonlinear_arith)
        requires
            0 <= x,
            0 <= z,
            0 <= n,
    ;
    lemma_index_position(n, x, z, 0);
    lemma_index_position(n, x, z, 1);
    lemma_index_position(n, x, z, 2);
    lemma_index_position(n, x, z, 3);
    lemma_index_position(n, x, z, 4);
    lemma_index_position(n, x, z, 5);
}

/// Copy `i` of the merged buffer is the platform's own buffer in its own
/// order, every index shifted by `i * vertex_count` (kept in 32 bits); when
/// that shift and the index fit 32 bits, the entry is plainly their sum.
pub proof fn lemma_merged_copy_layout(
    base: Seq<u32>,
    vertex_count: int,
    copies: int,
    i: int,
    j: int,
)
    requires
        0 <= vertex_count,
        0 <= i < copies,
        0 <= j < base.len(),
    ensures
        merged_indices_spec(base, vertex_count, copies).len() == copies * base.len(),
        0 <= i * base.len() + j < merged_indices_spec(base, vertex_count, copies).len(),
        merged_indices_spec(base, vertex_count, copies)[i * base.len() + j] == (base[j] + ((i
            * vertex_count) as u32)) as u32,
        base[j] + i * vertex_count <= u32::MAX ==> merged_indices_spec(base, vertex_count, copies)[i
            * base.len() + j] == base[j] + i * vertex_count,
{
    let m = base.len() as int;
    assert(0 <= i * m + j < copies * m) by (nonlinear_arith)
        requires
            0 <= i < copies,
            0 <= j < m,
    ;
    assert(0 <= i * vertex_count) by (nonlinear_arith)
        requires
            0 <= i,
            0 <= vertex_count,
    ;
    lemma_fundamental_div_mod_converse(i * m + j, m, i, j);
}

/// Every entry of the terrain index buffer names one of the `side * side`
/// vertices of the grid.
pub proof fn lemma_terrain_indices_in_range(side: u16)
    ensures
        forall|k: int|
            0 <= k < terrain_indices_spec(side as nat).len() ==> (#[trigger] terrain_indices_spec(
                side as nat,
            )[k]) < side * side,
{
    let n = side as int;
    assert forall|k: int|
        0 <= k < terrain_indices_spec(side as nat).len() implies (#[trigger] terrain_indices_spec(
        side as nat,
    )[k]) < side * side by {
        let c = n - 1;
        let q = k / 6;
        let j = k % 6;
        lemma_fundamental_div_mod(k, 6);
        lemma_mod_pos_bound(k, 6);
        lemma_div_pos_is_pos(k, 6);
        let x = q % c;
        let z = q / c;
        lemma_fundamental_div_mod(q, c);
        lemma_mod_pos_bound(q, c);
        lemma_div_pos_is_pos(q, c);
        assert(q < c * c) by (nonlinear_arith)
            requires
                k == 6 * q + j,
                0 <= j < 6,
                k < 6 * c * c,
        ;
        assert(z < c) by (nonlinear_arith)
            requires
                q == c * z + x,
                0 <= x,
                q < c * c,
                c > 0,
        ;
        assert(x + z * n + n + 1 < n * n) by (nonlinear_arith)
            requires
                0 <= x < c,
                0 <= z < c,
                c == n - 1,
        ;
        assert(n * n <= 65535 * 65535) by (nonlinear_arith)
            requires
                0 <= n <= 65535,
        ;
        assert(0 <= x + z * n) by (nonlinear_arith)
            requires
                0 <= x,
                0 <= z,
                0 <= n,
        ;
    }
}

} // verus!
