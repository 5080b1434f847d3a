//! Indexing of chunk cells. A chunk holds 16 × 16 × 16 cells; building a
//! chunk's mesh samples a 17 × 17 × 17 grid that reaches one cell into the
//! neighbouring chunks above it on each axis.

use vstd::prelude::*;

verus! {

/// Number of cells in a chunk.
pub const CHUNK_VOLUME: usize = 4096;

/// Number of samples in the grid a chunk's mesh is built from.
pub const SAMPLE_VOLUME: usize = 4913;

/// Index of the cell at `(x, y, z)` in a chunk's cell array.
pub open spec fn cell_index(x: int, y: int, z: int) -> int {
    x * 256 + y * 16 + z
}

/// Index of the sample at `(x, y, z)` in the 17 × 17 × 17 grid.
pub open spec fn sample_index(x: int, y: int, z: int) -> int {
    x * 289 + y * 17 + z
}

/// Index of the cell at `(x, y, z)` in a chunk's cell array; each coordinate
/// must be below 16.
pub fn index_of(x: u8, y: u8, z: u8) -> (index: usize)
    requires
        x <= 15,
        y <= 15,
        z <= 15,
    ensures
        index == cell_index(x as int, y as int, z as int),
        index < CHUNK_VOLUME,
{
    let x = x as usize;
    let y = y as usize;
    let z = z as usize;
    assert((x << 8) == x * 256 && (y << 4) == y * 16) by (bit_vector)
        requires x <= 15, y <= 15;
    (x << 8) + (y << 4) + z
}

/// The offset, in chunks, of the `k`-th of the eight chunks a sample grid
/// reaches into: `(0, 0, 0)`, `(0, 0, 1)`, `(0, 1, 0)`, …, `(1, 1, 1)`.
pub open spec fn dependency_offset(k: int) -> (int, int, int) {
    (k / 4, (k / 2) % 2, k % 2)
}

/// Where the sample `(x, y, z)` of the grid is read from: which of the eight
/// chunks (numbered as by [`dependency_offset`]) and which of its cells.
pub fn sample_source(x: usize, y: usize, z: usize) -> (source: (usize, usize))
    requires
        x < 17,
        y < 17,
        z < 17,
    ensures
        source.0 == 4 * (x / 16) + 2 * (y / 16) + z / 16,
        source.1 == cell_index(x as int % 16, y as int % 16, z as int % 16),
        source.0 < 8,
        source.1 < CHUNK_VOLUME,
{
    let chunk_index = ((x & 0x10) >> 2) | ((y & 0x10) >> 3) | ((z & 0x10) >> 4);
    let chunk_cell_index = (x & 0x0F) << 8 | (y & 0x0F) << 4 | z & 0x0F;
    assert(((x & 0x10) >> 2) | ((y & 0x10) >> 3) | ((z & 0x10) >> 4) == 4 * (x / 16) + 2 * (y / 16) + z / 16)
        by (bit_vector)
        requires x < 17, y < 17, z < 17;
    assert((x & 0x0F) << 8 | (y & 0x0F) << 4 | z & 0x0F == (x % 16) * 256 + (y % 16) * 16 + z % 16)
        by (bit_vector)
        requires x < 17, y < 17, z < 17;
    (chunk_index, chunk_cell_index)
}

/// Each sample is read from the cell at the same place: the chunk's offset
/// times sixteen plus the cell's position within the chunk is the sample's
/// position in the grid.
pub proof fn lemma_sample_source_position(x: int, y: int, z: int)
    requires
        0 <= x < 17,
        0 <= y < 17,
        0 <= z < 17,
    ensures
        ({
            let k = 4 * (x / 16) + 2 * (y / 16) + z / 16;
            let (ox, oy, oz) = dependency_offset(k);
            &&& 16 * ox + x % 16 == x
            &&& 16 * oy + y % 16 == y
            &&& 16 * oz + z % 16 == z
        }),
{
}

/// Where the sample `(x, y, z)` is read from when its own chunk is missing
/// and the grid is filled from the chunks one level up, which have half the
/// resolution: the sample maps to `(8 · parity + x / 2, …)` in the
/// upleveled grid, where the parity of each chunk coordinate tells which
/// half of the upleveled chunk the chunk covers.
pub fn upleveled_sample_source(
    odd_x: bool,
    odd_y: bool,
    odd_z: bool,
    x: usize,
    y: usize,
    z: usize,
) -> (source: (usize, usize))
    requires
        x < 17,
        y < 17,
        z < 17,
    ensures
        ({
            let ux = (if odd_x { 8int } else { 0int }) + x / 2;
            let uy = (if odd_y { 8int } else { 0int }) + y / 2;
            let uz = (if odd_z { 8int } else { 0int }) + z / 2;
            &&& source.0 == 4 * (ux / 16) + 2 * (uy / 16) + uz / 16
            &&& source.1 == cell_index(ux % 16, uy % 16, uz % 16)
        }),
        source.0 < 8,
        source.1 < CHUNK_VOLUME,
{
    assert((x >> 1) == x / 2 && (y >> 1) == y / 2 && (z >> 1) == z / 2) by (bit_vector);
    let u_x = (if odd_x { 8 } else { 0 }) + (x >> 1);
    let u_y = (if odd_y { 8 } else { 0 }) + (y >> 1);
    let u_z = (if odd_z { 8 } else { 0 }) + (z >> 1);
    sample_source(u_x, u_y, u_z)
}

/// The samples at the eight corners of the cell `(x, y, z)`, in the corner
/// order of the triangulation table: `(x, y, z+1)`, `(x+1, y, z+1)`,
/// `(x+1, y, z)`, `(x, y, z)`, then the same four one step up in `y`.
pub open spec fn corner_position(x: int, y: int, z: int, corner: int) -> (int, int, int) {
    let m = corner % 4;
    let (dx, dz) = if m == 0 {
        (0int, 1int)
    } else if m == 1 {
        (1int, 1int)
    } else if m == 2 {
        (1int, 0int)
    } else {
        (0int, 0int)
    };
    (x + dx, y + corner / 4, z + dz)
}

/// Sample indices of the eight corners of the cell `(x, y, z)`.
pub fn cell_corners(x: usize, y: usize, z: usize) -> (corners: [usize; 8])
    requires
        x < 16,
        y < 16,
        z < 16,
    ensures
        forall|c: int| 0 <= c < 8 ==> {
            let (px, py, pz) = corner_position(x as int, y as int, z as int, c);
            #[trigger] corners@[c] == sample_index(px, py, pz)
        },
        forall|c: int| 0 <= c < 8 ==> #[trigger] corners@[c] < SAMPLE_VOLUME,
{
    let at = |px: usize, py: usize, pz: usize| -> (index: usize)
        requires
            px < 17,
            py < 17,
            pz < 17,
        ensures
            index == sample_index(px as int, py as int, pz as int),
        { px * 289 + py * 17 + pz };
    [
        at(x, y, z + 1),
        at(x + 1, y, z + 1),
        at(x + 1, y, z),
        at(x, y, z),
        at(x, y + 1, z + 1),
        at(x + 1, y + 1, z + 1),
        at(x + 1, y + 1, z),
        at(x, y + 1, z),
    ]
}

/// The marching-cubes case of a cell: bit `i` is set when corner `i` holds
/// material.
pub open spec fn case_of(solid: Seq<bool>) -> int
    decreases solid.len(),
{
    if solid.len() == 0 {
        0
    } else {
        2 * case_of(solid.drop_first()) + (if solid[0] { 1int } else { 0int })
    }
}

/// `2` to the power `n`.
pub open spec fn power_of_two(n: nat) -> int
    decreases n,
{
    if n == 0 { 1 } else { 2 * power_of_two((n - 1) as nat) }
}

proof fn lemma_power_of_two_monotonic(n: nat, m: nat)
    requires
        n <= m,
    ensures
        1 <= power_of_two(n) <= power_of_two(m),
    decreases m,
{
    if n < m {
        lemma_power_of_two_monotonic(n, (m - 1) as nat);
    } else if n > 0 {
        lemma_power_of_two_monotonic((n - 1) as nat, (n - 1) as nat);
    }
}

/// The marching-cubes case of a cell whose corners hold material where
/// `solid` is set.
pub fn case_index(solid: [bool; 8]) -> (case: usize)
    ensures
        case == case_of(solid@),
        case < 256,
{
    let mut case: usize = 0;
    let mut i: usize = 8;
    while i > 0
        invariant
            i <= 8,
            case == case_of(solid@.skip(i as int)),
            case < power_of_two((8 - i) as nat),
        decreases i,
    {
        i = i - 1;
        assert(solid@.skip(i as int).drop_first() == solid@.skip(i + 1));
        proof {
            lemma_power_of_two_monotonic((8 - (i + 1)) as nat, 7);
            reveal_with_fuel(power_of_two, 8);
        }
        case = 2 * case + (if solid[i] { 1 } else { 0 });
    }
    assert(solid@.skip(0) == solid@);
    assert(power_of_two(8) == 256) by {
        reveal_with_fuel(power_of_two, 9);
    }
    case
}

/// The triangle index buffer for `vertex_count` vertices taken three at a
/// time: triangle `t` is `[3t, 3t + 1, 3t + 2]`, and one or two vertices left
/// over are not used.
pub fn triangle_indices(vertex_count: usize) -> (indices: Vec<[u32; 3]>)
    requires
        vertex_count <= u32::MAX,
    ensures
        indices@.len() == vertex_count / 3,
        forall|t: int| 0 <= t < indices@.len() ==>
            #[trigger] indices@[t]@ == seq![(3 * t) as u32, (3 * t + 1) as u32, (3 * t + 2) as u32],
{
    let mut indices: Vec<[u32; 3]> = Vec::new();
    let count = vertex_count / 3;
    let mut t: usize = 0;
    while t < count
        invariant
            t <= count,
            count == vertex_count / 3,
            vertex_count <= u32::MAX,
            indices@.len() == t,
            forall|s: int| 0 <= s < t ==>
                #[trigger] indices@[s]@ == seq![(3 * s) as u32, (3 * s + 1) as u32, (3 * s + 2) as u32],
        decreases count - t,
    {
        let first = (3 * t) as u32;
        let triangle = [first, first + 1, first + 2];
        assert(triangle@ == seq![(3 * t) as u32, (3 * t + 1) as u32, (3 * t + 2) as u32]);
        indices.push(triangle);
        t = t + 1;
    }
    indices
}

/// Where one sample of a chunk's grid comes from.
#[derive(Clone, Copy, Debug, PartialEq, Eq, Structural)]
pub enum SampleSource {
    /// From a cell of one of the eight chunks of the same level.
    Level { chunk: usize, cell: usize },
    /// From a cell of one of the eight chunks one level up.
    Upleveled { chunk: usize, cell: usize },
}

/// Which chunks are loaded one level up, and the parity of the chunk's
/// coordinates on each axis (which half of the upleveled chunk it covers).
#[derive(Clone, Copy, Debug)]
pub struct UpleveledChunks {
    pub loaded: [bool; 8],
    pub odd_x: bool,
    pub odd_y: bool,
    pub odd_z: bool,
}

/// The plan for filling a chunk's sample grid: where each sample comes from,
/// in grid order, up to the first sample that cannot be had; and whether
/// that sample is missing although the level above was consulted, so that
/// the chunk waits for chunks one level up.
pub struct GatherPlan {
    pub sources: Vec<SampleSource>,
    pub need_upleveled: bool,
}

/// The coordinates of the `i`-th sample of the grid.
pub open spec fn sample_coordinates(i: int) -> (int, int, int) {
    (i / 289, (i / 17) % 17, i % 17)
}

/// The chunk (numbered as by [`dependency_offset`]) and cell the sample
/// `(x, y, z)` is read from.
pub open spec fn sample_origin(x: int, y: int, z: int) -> (int, int) {
    (4 * (x / 16) + 2 * (y / 16) + z / 16, cell_index(x % 16, y % 16, z % 16))
}

/// The upleveled chunk and cell the sample `(x, y, z)` is read from.
pub open spec fn upleveled_origin(up: UpleveledChunks, x: int, y: int, z: int) -> (int, int) {
    sample_origin(
        (if up.odd_x { 8int } else { 0int }) + x / 2,
        (if up.odd_y { 8int } else { 0int }) + y / 2,
        (if up.odd_z { 8int } else { 0int }) + z / 2,
    )
}

/// Where the `i`-th sample comes from: its own level's chunk when loaded,
/// otherwise the chunk one level up when that level is consulted and the
/// chunk there is loaded; `None` when neither.
pub open spec fn sample_plan(loaded: Seq<bool>, up: Option<UpleveledChunks>, i: int) -> Option<SampleSource> {
    let (x, y, z) = sample_coordinates(i);
    let (chunk, cell) = sample_origin(x, y, z);
    if loaded[chunk] {
        Some(SampleSource::Level { chunk: chunk as usize, cell: cell as usize })
    } else {
        match up {
            Some(up) => {
                let (u_chunk, u_cell) = upleveled_origin(up, x, y, z);
                if up.loaded@[u_chunk] {
                    Some(SampleSource::Upleveled { chunk: u_chunk as usize, cell: u_cell as usize })
                } else {
                    None
                }
            },
            None => None,
        }
    }
}

/// Plans how a chunk's sample grid is filled, given which of the eight chunks
/// it reaches into are loaded and, unless it is at the top level, the same
/// for the chunks one level up. Samples are taken in grid order and the
/// plan stops at the first one that cannot be had.
pub fn plan_gather(loaded: [bool; 8], up: Option<UpleveledChunks>) -> (plan: GatherPlan)
    ensures
        plan.sources@.len() <= SAMPLE_VOLUME,
        forall|j: int| 0 <= j < plan.sources@.len() ==> sample_plan(loaded@, up, j) == Some(#[trigger] plan.sources@[j]),
        plan.sources@.len() < SAMPLE_VOLUME ==> sample_plan(loaded@, up, plan.sources@.len() as int) is None,
        plan.need_upleveled == (plan.sources@.len() < SAMPLE_VOLUME && up is Some),
{
    let mut sources: Vec<SampleSource> = Vec::new();
    let mut i: usize = 0;
    while i < SAMPLE_VOLUME
        invariant
            i <= SAMPLE_VOLUME,
            sources@.len() == i,
            forall|j: int| 0 <= j < i ==> sample_plan(loaded@, up, j) == Some(#[trigger] sources@[j]),
        decreases SAMPLE_VOLUME - i,
    {
        let x = i / 289;
        let y = (i / 17) % 17;
        let z = i % 17;
        let (chunk, cell) = sample_source(x, y, z);
        if loaded[chunk] {
            sources.push(SampleSource::Level { chunk, cell });
        } else {
            match up {
                Some(upleveled) => {
                    let (u_chunk, u_cell) = upleveled_sample_source(
                        upleveled.odd_x,
                        upleveled.odd_y,
                        upleveled.odd_z,
                        x,
                        y,
                        z,
                    );
                    if upleveled.loaded[u_chunk] {
                        sources.push(SampleSource::Upleveled { chunk: u_chunk, cell: u_cell });
                    } else {
                        return GatherPlan { sources, need_upleveled: true };
                    }
                },
                None => {
                    return GatherPlan { sources, need_upleveled: false };
                },
            }
        }
        i = i + 1;
    }
    GatherPlan { sources, need_upleveled: false }
}

/// Where the planned sample `i` of the grid is read from. The sample sits
/// at `(x, y, z) = (i / 289, (i / 17) % 17, i % 17)`. From its own level it
/// is read from chunk `4 [x ≥ 16] + 2 [y ≥ 16] + [z ≥ 16]`, cell
/// `256 (x mod 16) + 16 (y mod 16) + (z mod 16)`. From the level above it is
/// read at the upleveled grid position `(u, v, w)` with
/// `u = 8 [x coordinate of the chunk odd] + x / 2`, `v = 8 [y odd] + y / 2`,
/// `w = 8 [z odd] + z / 2`: chunk `4 [u ≥ 16] + 2 [v ≥ 16] + [w ≥ 16]`, cell
/// `256 (u mod 16) + 16 (v mod 16) + (w mod 16)`. Each offset follows the
/// parity of its own axis only.
#[verifier::spinoff_prover]
#[verifier::rlimit(50)]
pub proof fn lemma_sample_plan_positions(loaded: Seq<bool>, up: Option<UpleveledChunks>, i: int)
    requires
        0 <= i < SAMPLE_VOLUME,
    ensures
        ({
            let x = i / 289;
            let y = (i / 17) % 17;
            let z = i % 17;
            match sample_plan(loaded, up, i) {
                Some(SampleSource::Level { chunk, cell }) => {
                    &&& chunk == 4 * (if x >= 16 { 1int } else { 0int }) + 2 * (if y >= 16 { 1int } else { 0int })
                        + (if z >= 16 { 1int } else { 0int })
                    &&& cell == 256 * (x % 16) + 16 * (y % 16) + z % 16
                },
                Some(SampleSource::Upleveled { chunk, cell }) => {
                    let odd_x = up->0.odd_x;
                    let odd_y = up->0.odd_y;
                    let odd_z = up->0.odd_z;
                    let u = (if odd_x { 8int } else { 0int }) + x / 2;
                    let v = (if odd_y { 8int } else { 0int }) + y / 2;
                    let w = (if odd_z { 8int } else { 0int }) + z / 2;
                    &&& up is Some
                    &&& chunk == 4 * (if u >= 16 { 1int } else { 0int }) + 2 * (if v >= 16 { 1int } else { 0int })
                        + (if w >= 16 { 1int } else { 0int })
                    &&& cell == 256 * (u % 16) + 16 * (v % 16) + w % 16
                },
                None => true,
            }
        }),
{
    let x = i / 289;
    let y = (i / 17) % 17;
    let z = i % 17;
    assert(0 <= x < 17 && 0 <= y < 17 && 0 <= z < 17);
    assert(sample_coordinates(i) == (x, y, z));
    lemma_halves(x);
    lemma_halves(y);
    lemma_halves(z);
    match up {
        Some(u) => {
            let a = (if u.odd_x { 8int } else { 0int }) + x / 2;
            let b = (if u.odd_y { 8int } else { 0int }) + y / 2;
            let c = (if u.odd_z { 8int } else { 0int }) + z / 2;
            assert(0 <= x / 2 <= 8 && 0 <= y / 2 <= 8 && 0 <= z / 2 <= 8);
            lemma_halves(a);
            lemma_halves(b);
            lemma_halves(c);
        },
        None => {},
    }
}

proof fn lemma_halves(v: int)
    requires
        0 <= v < 32,
    ensures
        v / 16 == (if v >= 16 { 1int } else { 0int }),
        v % 16 == v - 16 * (v / 16),
{
}

} // verus!
