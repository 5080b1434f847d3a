//! Marching-cubes triangulation of a cell: which triangles a cell gets for
//! its case, and between which corners each triangle vertex lies.

use crate::chunk::{case_index, case_of, cell_corners, corner_position, sample_index, CHUNK_VOLUME, SAMPLE_VOLUME};
use crate::triangulation::{lemma_table_edges_valid, EdgeData, CELL_EDGE_MAP, EDGE_CORNER_MAP};
use vstd::prelude::*;

verus! {

/// The number of triangles a cell of case `case` gets: the table's edge
/// indices are taken in groups of three, and as many groups as the row's
/// count are taken, at most the five groups the row holds.
pub open spec fn triangle_count(case: int) -> int {
    let count = CELL_EDGE_MAP@[case]@[0] as int;
    if count < 5 { count } else { 5 }
}

/// The corners between which vertex `v` of triangle `t` of case `case` lies.
pub open spec fn vertex_corners(case: int, t: int, v: int) -> Seq<usize> {
    EDGE_CORNER_MAP@[CELL_EDGE_MAP@[case]@[1 + 3 * t + v] as int]@
}

/// The row of the triangulation table for `case`.
pub fn edge_data(case: usize) -> (data: EdgeData)
    requires
        case < 256,
    ensures
        data.count == CELL_EDGE_MAP@[case as int]@[0],
        forall|j: int| 0 <= j < 15 ==> data.edge_indices@[j] == CELL_EDGE_MAP@[case as int]@[j + 1],
{
    let row = CELL_EDGE_MAP[case];
    let mut edge_indices = [0u8; 15];
    let mut j: usize = 0;
    while j < 15
        invariant
            j <= 15,
            row@ == CELL_EDGE_MAP@[case as int]@,
            forall|i: int| 0 <= i < j ==> edge_indices@[i] == row@[i + 1],
        decreases 15 - j,
    {
        edge_indices[j] = row[j + 1];
        j = j + 1;
    }
    EdgeData { count: row[0], edge_indices }
}

/// The triangles of a cell of case `case`: for each triangle, for each of
/// its three vertices, the two corners of the edge the vertex lies on.
pub fn cell_triangles(case: usize) -> (triangles: Vec<[[usize; 2]; 3]>)
    requires
        case < 256,
    ensures
        triangles@.len() == triangle_count(case as int),
        forall|t: int, v: int| 0 <= t < triangles@.len() && 0 <= v < 3 ==>
            #[trigger] triangles@[t]@[v]@ == vertex_corners(case as int, t, v),
{
    proof { lemma_table_edges_valid(); }
    let EdgeData { count, edge_indices } = edge_data(case);
    let groups: usize = if (count as usize) < 5 { count as usize } else { 5 };
    let mut triangles: Vec<[[usize; 2]; 3]> = Vec::new();
    let mut t: usize = 0;
    while t < groups
        invariant
            t <= groups,
            groups == triangle_count(case as int),
            groups <= 5,
            case < 256,
            forall|j: int| 0 <= j < 15 ==> edge_indices@[j] == CELL_EDGE_MAP@[case as int]@[j + 1],
            forall|c: int, j: int| 0 <= c < 256 && 1 <= j < 16 ==> #[trigger] CELL_EDGE_MAP@[c]@[j] < 12,
            triangles@.len() == t,
            forall|s: int, v: int| 0 <= s < t && 0 <= v < 3 ==>
                #[trigger] triangles@[s]@[v]@ == vertex_corners(case as int, s, v),
        decreases groups - t,
    {
        let e0 = edge_indices[3 * t] as usize;
        let e1 = edge_indices[3 * t + 1] as usize;
        let e2 = edge_indices[3 * t + 2] as usize;
        assert(CELL_EDGE_MAP@[case as int]@[3 * t + 1] < 12);
        assert(CELL_EDGE_MAP@[case as int]@[3 * t + 2] < 12);
        assert(CELL_EDGE_MAP@[case as int]@[3 * t + 3] < 12);
        let triangle = [EDGE_CORNER_MAP[e0], EDGE_CORNER_MAP[e1], EDGE_CORNER_MAP[e2]];
        triangles.push(triangle);
        t = t + 1;
    }
    triangles
}

/// The materials a vertex on the edge from corner `a` to corner `b` blends
/// between: each end's own material, except that an empty end takes the
/// other end's material.
pub fn edge_materials<M: Copy>(a: M, a_empty: bool, b: M, b_empty: bool) -> (pair: (M, M))
    ensures
        pair == (if a_empty { b } else { a }, if b_empty { a } else { b }),
{
    let first = if a_empty { b } else { a };
    let second = if b_empty { a } else { b };
    (first, second)
}

/// The two halves a material number is packed into for the vertex data:
/// its bits 2 and 3, then its bits 0 and 1.
pub fn material_halves(material: u8) -> (halves: [u8; 2])
    ensures
        halves@ == seq![((material / 4) % 4) as u8, (material % 4) as u8],
{
    let high = (material & 0xC) >> 2;
    let low = material & 0x3;
    assert(high == (material / 4) % 4 && low == material % 4) by (bit_vector)
        requires high == (material & 0xC) >> 2, low == material & 0x3;
    [high, low]
}

/// Whether each corner of the cell numbered `c` (`x * 256 + y * 16 + z`)
/// holds material, by which samples of the grid do.
pub open spec fn cell_solid(solid: Seq<bool>, c: int) -> Seq<bool> {
    Seq::new(8, |k: int| {
        let (px, py, pz) = corner_position(c / 256, (c / 16) % 16, c % 16, k);
        solid[sample_index(px, py, pz)]
    })
}

/// The number of triangles of the cells numbered below `n`.
pub open spec fn triangles_before(solid: Seq<bool>, n: int) -> int
    decreases n,
{
    if n <= 0 {
        0
    } else {
        triangles_before(solid, n - 1) + triangle_count(case_of(cell_solid(solid, n - 1)))
    }
}

proof fn lemma_triangles_bounded(solid: Seq<bool>, n: int)
    requires
        0 <= n,
    ensures
        0 <= triangles_before(solid, n) <= 5 * n,
    decreases n,
{
    if n > 0 {
        lemma_triangles_bounded(solid, n - 1);
    }
}

/// The number of triangles of a chunk's mesh, from which samples of its
/// 17 × 17 × 17 grid hold material: the triangles of all its cells.
pub fn chunk_triangle_count(solid: &Vec<bool>) -> (count: usize)
    requires
        solid@.len() == SAMPLE_VOLUME,
    ensures
        count == triangles_before(solid@, CHUNK_VOLUME as int),
{
    let mut count: usize = 0;
    let mut c: usize = 0;
    while c < CHUNK_VOLUME
        invariant
            c <= CHUNK_VOLUME,
            solid@.len() == SAMPLE_VOLUME,
            count == triangles_before(solid@, c as int),
        decreases CHUNK_VOLUME - c,
    {
        let x = c / 256;
        let y = (c / 16) % 16;
        let z = c % 16;
        let corners = cell_corners(x, y, z);
        let mut flags = [false; 8];
        let mut k: usize = 0;
        while k < 8
            invariant
                k <= 8,
                solid@.len() == SAMPLE_VOLUME,
                forall|j: int| 0 <= j < 8 ==> #[trigger] corners@[j] < SAMPLE_VOLUME,
                forall|j: int| 0 <= j < k ==> flags@[j] == solid@[corners@[j] as int],
            decreases 8 - k,
        {
            flags[k] = solid[corners[k]];
            k = k + 1;
        }
        assert(flags@ == cell_solid(solid@, c as int)) by {
            assert forall|j: int| 0 <= j < 8 implies flags@[j] == cell_solid(solid@, c as int)[j] by {
                let (px, py, pz) = corner_position(x as int, y as int, z as int, j);
                assert(corners@[j] == sample_index(px, py, pz));
            }
        }
        let case = case_index(flags);
        let row = edge_data(case);
        let triangles: usize = if (row.count as usize) < 5 { row.count as usize } else { 5 };
        proof { lemma_triangles_bounded(solid@, c as int); }
        count = count + triangles;
        c = c + 1;
    }
    count
}

/// Whether a chunk has a mesh after an attempt to build it: not while data
/// one level up that it needs is missing, and not when its cells hold no
/// triangles.
pub fn keeps_mesh(need_upleveled: bool, triangles: usize) -> (has_mesh: bool)
    ensures
        has_mesh == (!need_upleveled && triangles > 0),
{
    !need_upleveled && triangles > 0
}

proof fn lemma_triangles_monotonic(solid: Seq<bool>, m: int, n: int)
    requires
        0 <= m <= n,
    ensures
        triangles_before(solid, m) <= triangles_before(solid, n),
    decreases n - m,
{
    if m < n {
        lemma_triangles_monotonic(solid, m, n - 1);
    }
}

/// Every cell of the chunk, the last layer on each axis included, adds its
/// triangles to the chunk's count: the count of a chunk is at least the
/// triangles of any one cell `(x, y, z)` with `x, y, z` in `0..16` (the cell
/// whose corners are the samples `(x, y, z)` to `(x + 1, y + 1, z + 1)`);
/// the count is zero exactly when no cell has a triangle; and it is at most
/// five triangles a cell.
pub proof fn lemma_every_cell_counted(solid: Seq<bool>, x: int, y: int, z: int)
    requires
        0 <= x < 16,
        0 <= y < 16,
        0 <= z < 16,
    ensures
        triangles_before(solid, 4096) >= triangle_count(case_of(cell_solid(solid, 256 * x + 16 * y + z))),
        triangles_before(solid, 4096) == 0 <==> forall|c: int|
            0 <= c < 4096 ==> triangle_count(#[trigger] case_of(cell_solid(solid, c))) == 0,
        triangles_before(solid, 4096) <= 5 * 4096,
{
    let c = 256 * x + 16 * y + z;
    lemma_triangles_monotonic(solid, c + 1, 4096);
    lemma_triangles_bounded(solid, c);
    lemma_triangles_bounded(solid, 4096);
    lemma_zero_iff(solid, 4096);
}

proof fn lemma_zero_iff(solid: Seq<bool>, n: int)
    requires
        0 <= n,
    ensures
        triangles_before(solid, n) == 0 <==> forall|c: int|
            0 <= c < n ==> triangle_count(#[trigger] case_of(cell_solid(solid, c))) == 0,
    decreases n,
{
    if n > 0 {
        lemma_zero_iff(solid, n - 1);
        lemma_triangles_bounded(solid, n - 1);
        let last = case_of(cell_solid(solid, n - 1));
        assert(triangle_count(last) >= 0) by {
            lemma_count_nonnegative(last);
        }
        if triangles_before(solid, n) == 0 {
            assert forall|c: int| 0 <= c < n implies triangle_count(#[trigger] case_of(cell_solid(solid, c))) == 0 by {
                if c < n - 1 {
                } else {
                    assert(c == n - 1);
                }
            }
        }
    }
}

proof fn lemma_count_nonnegative(case: int)
    ensures
        triangle_count(case) >= 0,
{
}

/// The corners of the cell `(x, y, z)` are the samples `(x, y, z + 1)`,
/// `(x + 1, y, z + 1)`, `(x + 1, y, z)`, `(x, y, z)` and the same four one
/// step up in `y`, the sample `(a, b, c)` standing at `289 a + 17 b + c`.
pub proof fn lemma_cell_corners_samples(solid: Seq<bool>, x: int, y: int, z: int)
    requires
        0 <= x < 16,
        0 <= y < 16,
        0 <= z < 16,
    ensures
        ({
            let at = |a: int, b: int, c: int| solid[289 * a + 17 * b + c];
            cell_solid(solid, 256 * x + 16 * y + z) == seq![
                at(x, y, z + 1),
                at(x + 1, y, z + 1),
                at(x + 1, y, z),
                at(x, y, z),
                at(x, y + 1, z + 1),
                at(x + 1, y + 1, z + 1),
                at(x + 1, y + 1, z),
                at(x, y + 1, z),
            ]
        }),
{
    let c = 256 * x + 16 * y + z;
    assert(c / 256 == x && (c / 16) % 16 == y && c % 16 == z) by (nonlinear_arith)
        requires
            c == 256 * x + 16 * y + z,
            0 <= x < 16,
            0 <= y < 16,
            0 <= z < 16,
    {
        assert(c / 16 == 16 * x + y);
    }
    let at = |a: int, b: int, c: int| solid[289 * a + 17 * b + c];
    let cells = cell_solid(solid, c);
    assert(cells[0] == at(x, y, z + 1));
    assert(cells[1] == at(x + 1, y, z + 1));
    assert(cells[2] == at(x + 1, y, z));
    assert(cells[3] == at(x, y, z));
    assert(cells[4] == at(x, y + 1, z + 1));
    assert(cells[5] == at(x + 1, y + 1, z + 1));
    assert(cells[6] == at(x + 1, y + 1, z));
    assert(cells[7] == at(x, y + 1, z));
    assert(cell_solid(solid, c) =~= seq![
        at(x, y, z + 1),
        at(x + 1, y, z + 1),
        at(x + 1, y, z),
        at(x, y, z),
        at(x, y + 1, z + 1),
        at(x + 1, y + 1, z + 1),
        at(x + 1, y + 1, z),
        at(x, y + 1, z),
    ]);
}

} // verus!
