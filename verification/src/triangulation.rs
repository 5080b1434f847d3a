//! The marching-cubes triangulation table: for each of the 256 cases, the
//! cell edges its triangles' vertices lie on.

use vstd::prelude::*;

verus! {

/// One row of the triangulation table: the number of edge indices that make
/// up the case's triangles, and the edge indices, three per triangle.
pub struct EdgeData {
    pub count: u8,
    pub edge_indices: [u8; 15],
}

/// The triangulation table, one row per case: the count, then fifteen edge
/// indices.
pub const CELL_EDGE_MAP: [[u8; 16]; 256] = [
    [ 0,  0,  0,  0,  0,  0,  0,  0,  0,  0,  0,  0,  0,  0,  0,  0],
    [ 3,  3,  8,  0,  0,  0,  0,  0,  0,  0,  0,  0,  0,  0,  0,  0],
    [ 3,  9,  1,  0,  0,  0,  0,  0,  0,  0,  0,  0,  0,  0,  0,  0],
    [ 6,  3,  8,  1,  1,  8,  9,  0,  0,  0,  0,  0,  0,  0,  0,  0],
    [ 3, 10,  2,  1,  0,  0,  0,  0,  0,  0,  0,  0,  0,  0,  0,  0],
    [ 6,  3,  8,  0, 10,  2,  1,  0,  0,  0,  0,  0,  0,  0,  0,  0],
    [ 6, 10,  2,  9,  9,  2,  0,  0,  0,  0,  0,  0,  0,  0,  0,  0],
    [ 9,  3,  8,  2,  8, 10,  2,  8,  9, 10,  0,  0,  0,  0,  0,  0],
    [ 3,  2, 11,  3,  0,  0,  0,  0,  0,  0,  0,  0,  0,  0,  0,  0],
    [ 6,  2, 11,  0,  0, 11,  8,  0,  0,  0,  0,  0,  0,  0,  0,  0],
    [ 6,  0,  9,  1, 11,  3,  2,  0,  0,  0,  0,  0,  0,  0,  0,  0],
    [ 9,  2, 11,  1, 11,  9,  1, 11,  8,  9,  0,  0,  0,  0,  0,  0],
    [ 6,  1, 10,  3,  3, 10, 11,  0,  0,  0,  0,  0,  0,  0,  0,  0],
    [ 9,  1, 10,  0, 10,  8,  0, 10, 11,  8,  0,  0,  0,  0,  0,  0],
    [ 9,  0,  9,  3,  9, 11,  3,  9, 10, 11,  0,  0,  0,  0,  0,  0],
    [ 6, 10,  8,  9, 11,  8, 10,  0,  0,  0,  0,  0,  0,  0,  0,  0],
    [ 3,  8,  7,  4,  0,  0,  0,  0,  0,  0,  0,  0,  0,  0,  0,  0],
    [ 6,  0,  3,  4,  4,  3,  7,  0,  0,  0,  0,  0,  0,  0,  0,  0],
    [ 6,  9,  1,  0,  7,  4,  8,  0,  0,  0,  0,  0,  0,  0,  0,  0],
    [ 9,  9,  1,  4,  1,  7,  4,  1,  3,  7,  0,  0,  0,  0,  0,  0],
    [ 6, 10,  2,  1,  7,  4,  8,  0,  0,  0,  0,  0,  0,  0,  0,  0],
    [ 9,  7,  4,  3,  4,  0,  3, 10,  2,  1,  0,  0,  0,  0,  0,  0],
    [ 9, 10,  2,  9,  2,  0,  9,  7,  4,  8,  0,  0,  0,  0,  0,  0],
    [12,  9, 10,  2,  7,  9,  2,  3,  7,  2,  4,  9,  7,  0,  0,  0],
    [ 6,  7,  4,  8,  2, 11,  3,  0,  0,  0,  0,  0,  0,  0,  0,  0],
    [ 9,  7,  4, 11,  4,  2, 11,  4,  0,  2,  0,  0,  0,  0,  0,  0],
    [ 9,  1,  0,  9,  7,  4,  8, 11,  3,  2,  0,  0,  0,  0,  0,  0],
    [12, 11,  7,  4, 11,  4,  9,  2, 11,  9,  1,  2,  9,  0,  0,  0],
    [ 9,  1, 10,  3, 10, 11,  3,  4,  8,  7,  0,  0,  0,  0,  0,  0],
    [12, 10, 11,  1, 11,  4,  1,  4,  0,  1,  4, 11,  7,  0,  0,  0],
    [12,  8,  7,  4, 11,  0,  9, 10, 11,  9,  3,  0, 11,  0,  0,  0],
    [ 9, 11,  7,  4,  9, 11,  4, 10, 11,  9,  0,  0,  0,  0,  0,  0],
    [ 3,  4,  5,  9,  0,  0,  0,  0,  0,  0,  0,  0,  0,  0,  0,  0],
    [ 6,  4,  5,  9,  3,  8,  0,  0,  0,  0,  0,  0,  0,  0,  0,  0],
    [ 6,  4,  5,  0,  0,  5,  1,  0,  0,  0,  0,  0,  0,  0,  0,  0],
    [ 9,  4,  5,  8,  5,  3,  8,  5,  1,  3,  0,  0,  0,  0,  0,  0],
    [ 6, 10,  2,  1,  4,  5,  9,  0,  0,  0,  0,  0,  0,  0,  0,  0],
    [ 9,  8,  0,  3, 10,  2,  1,  5,  9,  4,  0,  0,  0,  0,  0,  0],
    [ 9, 10,  2,  5,  2,  4,  5,  2,  0,  4,  0,  0,  0,  0,  0,  0],
    [12,  5, 10,  2,  5,  2,  3,  4,  5,  3,  8,  4,  3,  0,  0,  0],
    [ 6,  4,  5,  9, 11,  3,  2,  0,  0,  0,  0,  0,  0,  0,  0,  0],
    [ 9,  2, 11,  0, 11,  8,  0,  5,  9,  4,  0,  0,  0,  0,  0,  0],
    [ 9,  4,  5,  0,  5,  1,  0, 11,  3,  2,  0,  0,  0,  0,  0,  0],
    [12,  5,  1,  2,  8,  5,  2, 11,  8,  2,  5,  8,  4,  0,  0,  0],
    [ 9, 11,  3, 10,  3,  1, 10,  4,  5,  9,  0,  0,  0,  0,  0,  0],
    [12,  5,  9,  4,  1,  8,  0,  1, 10,  8, 10, 11,  8,  0,  0,  0],
    [12,  0,  4,  5, 11,  0,  5, 10, 11,  5,  3,  0, 11,  0,  0,  0],
    [ 9,  8,  4,  5, 10,  8,  5, 11,  8, 10,  0,  0,  0,  0,  0,  0],
    [ 6,  8,  7,  9,  9,  7,  5,  0,  0,  0,  0,  0,  0,  0,  0,  0],
    [ 9,  0,  3,  9,  3,  5,  9,  3,  7,  5,  0,  0,  0,  0,  0,  0],
    [ 9,  8,  7,  0,  7,  1,  0,  7,  5,  1,  0,  0,  0,  0,  0,  0],
    [ 6,  3,  5,  1,  7,  5,  3,  0,  0,  0,  0,  0,  0,  0,  0,  0],
    [ 9,  8,  7,  9,  7,  5,  9,  2,  1, 10,  0,  0,  0,  0,  0,  0],
    [12,  2,  1, 10,  0,  5,  9,  0,  3,  5,  3,  7,  5,  0,  0,  0],
    [12,  2,  0,  8,  5,  2,  8,  7,  5,  8,  2,  5, 10,  0,  0,  0],
    [ 9,  5, 10,  2,  3,  5,  2,  7,  5,  3,  0,  0,  0,  0,  0,  0],
    [ 9,  5,  9,  7,  9,  8,  7,  2, 11,  3,  0,  0,  0,  0,  0,  0],
    [12,  7,  5,  9,  2,  7,  9,  0,  2,  9, 11,  7,  2,  0,  0,  0],
    [12, 11,  3,  2,  8,  1,  0,  8,  7,  1,  7,  5,  1,  0,  0,  0],
    [ 9,  1,  2, 11,  7,  1, 11,  5,  1,  7,  0,  0,  0,  0,  0,  0],
    [12,  8,  5,  9,  7,  5,  8,  3,  1, 10, 11,  3, 10,  0,  0,  0],
    [15,  0,  7,  5,  9,  0,  5,  0, 11,  7, 10,  0,  1,  0, 10, 11],
    [15,  0, 10, 11,  3,  0, 11,  0,  5, 10,  7,  0,  8,  0,  7,  5],
    [ 6,  5, 10, 11,  5, 11,  7,  0,  0,  0,  0,  0,  0,  0,  0,  0],
    [ 3,  5,  6, 10,  0,  0,  0,  0,  0,  0,  0,  0,  0,  0,  0,  0],
    [ 6,  3,  8,  0,  6, 10,  5,  0,  0,  0,  0,  0,  0,  0,  0,  0],
    [ 6,  1,  0,  9,  6, 10,  5,  0,  0,  0,  0,  0,  0,  0,  0,  0],
    [ 9,  3,  8,  1,  8,  9,  1,  6, 10,  5,  0,  0,  0,  0,  0,  0],
    [ 6,  5,  6,  1,  1,  6,  2,  0,  0,  0,  0,  0,  0,  0,  0,  0],
    [ 9,  5,  6,  1,  6,  2,  1,  8,  0,  3,  0,  0,  0,  0,  0,  0],
    [ 9,  5,  6,  9,  6,  0,  9,  6,  2,  0,  0,  0,  0,  0,  0,  0],
    [12,  8,  9,  5,  2,  8,  5,  6,  2,  5,  8,  2,  3,  0,  0,  0],
    [ 6, 11,  3,  2,  5,  6, 10,  0,  0,  0,  0,  0,  0,  0,  0,  0],
    [ 9,  8,  0, 11,  0,  2, 11,  5,  6, 10,  0,  0,  0,  0,  0,  0],
    [ 9,  9,  1,  0, 11,  3,  2,  6, 10,  5,  0,  0,  0,  0,  0,  0],
    [12,  6, 10,  5,  2,  9,  1,  2, 11,  9, 11,  8,  9,  0,  0,  0],
    [ 9, 11,  3,  6,  3,  5,  6,  3,  1,  5,  0,  0,  0,  0,  0,  0],
    [12, 11,  8,  0,  5, 11,  0,  1,  5,  0,  6, 11,  5,  0,  0,  0],
    [12,  6, 11,  3,  6,  3,  0,  5,  6,  0,  9,  5,  0,  0,  0,  0],
    [ 9,  9,  5,  6, 11,  9,  6,  8,  9, 11,  0,  0,  0,  0,  0,  0],
    [ 6,  6, 10,  5,  8,  7,  4,  0,  0,  0,  0,  0,  0,  0,  0,  0],
    [ 9,  0,  3,  4,  3,  7,  4, 10,  5,  6,  0,  0,  0,  0,  0,  0],
    [ 9,  0,  9,  1,  6, 10,  5,  7,  4,  8,  0,  0,  0,  0,  0,  0],
    [12,  5,  6, 10,  7,  9,  1,  3,  7,  1,  4,  9,  7,  0,  0,  0],
    [ 9,  2,  1,  6,  1,  5,  6,  8,  7,  4,  0,  0,  0,  0,  0,  0],
    [12,  5,  2,  1,  6,  2,  5,  4,  0,  3,  7,  4,  3,  0,  0,  0],
    [12,  7,  4,  8,  5,  0,  9,  5,  6,  0,  6,  2,  0,  0,  0,  0],
    [15,  9,  3,  7,  4,  9,  7,  9,  2,  3,  6,  9,  5,  9,  6,  2],
    [ 9,  2, 11,  3,  4,  8,  7,  5,  6, 10,  0,  0,  0,  0,  0,  0],
    [12,  6, 10,  5,  2,  7,  4,  0,  2,  4, 11,  7,  2,  0,  0,  0],
    [12,  9,  1,  0,  8,  7,  4, 11,  3,  2,  6, 10,  5,  0,  0,  0],
    [15,  1,  2,  9,  2, 11,  9, 11,  4,  9,  4, 11,  7,  6, 10,  5],
    [12,  7,  4,  8,  5, 11,  3,  1,  5,  3,  6, 11,  5,  0,  0,  0],
    [15, 11,  1,  5,  6, 11,  5, 11,  0,  1,  4, 11,  7, 11,  4,  0],
    [15,  9,  5,  0,  5,  6,  0,  6,  3,  0,  3,  6, 11,  7,  4,  8],
    [12,  9,  5,  6, 11,  9,  6,  9,  7,  4,  9, 11,  7,  0,  0,  0],
    [ 6,  9,  4, 10, 10,  4,  6,  0,  0,  0,  0,  0,  0,  0,  0,  0],
    [ 9,  6, 10,  4, 10,  9,  4,  3,  8,  0,  0,  0,  0,  0,  0,  0],
    [ 9,  1,  0, 10,  0,  6, 10,  0,  4,  6,  0,  0,  0,  0,  0,  0],
    [12,  1,  3,  8,  6,  1,  8,  4,  6,  8, 10,  1,  6,  0,  0,  0],
    [ 9,  9,  4,  1,  4,  2,  1,  4,  6,  2,  0,  0,  0,  0,  0,  0],
    [12,  8,  0,  3,  9,  2,  1,  9,  4,  2,  4,  6,  2,  0,  0,  0],
    [ 6,  4,  2,  0,  6,  2,  4,  0,  0,  0,  0,  0,  0,  0,  0,  0],
    [ 9,  2,  3,  8,  4,  2,  8,  6,  2,  4,  0,  0,  0,  0,  0,  0],
    [ 9,  9,  4, 10,  4,  6, 10,  3,  2, 11,  0,  0,  0,  0,  0,  0],
    [12,  2,  8,  0, 11,  8,  2, 10,  9,  4,  6, 10,  4,  0,  0,  0],
    [12,  2, 11,  3,  6,  1,  0,  4,  6,  0, 10,  1,  6,  0,  0,  0],
    [15,  1,  4,  6, 10,  1,  6,  1,  8,  4, 11,  1,  2,  1, 11,  8],
    [12,  4,  6,  9,  6,  3,  9,  3,  1,  9,  3,  6, 11,  0,  0,  0],
    [15,  1, 11,  8,  0,  1,  8,  1,  6, 11,  4,  1,  9,  1,  4,  6],
    [ 9,  6, 11,  3,  0,  6,  3,  4,  6,  0,  0,  0,  0,  0,  0,  0],
    [ 6,  8,  4,  6,  8,  6, 11,  0,  0,  0,  0,  0,  0,  0,  0,  0],
    [ 9,  6, 10,  7, 10,  8,  7, 10,  9,  8,  0,  0,  0,  0,  0,  0],
    [12,  3,  7,  0,  7, 10,  0, 10,  9,  0, 10,  7,  6,  0,  0,  0],
    [12,  7,  6, 10,  7, 10,  1,  8,  7,  1,  0,  8,  1,  0,  0,  0],
    [ 9,  7,  6, 10,  1,  7, 10,  3,  7,  1,  0,  0,  0,  0,  0,  0],
    [12,  6,  2,  1,  8,  6,  1,  9,  8,  1,  7,  6,  8,  0,  0,  0],
    [15,  9,  6,  2,  1,  9,  2,  9,  7,  6,  3,  9,  0,  9,  3,  7],
    [ 9,  0,  8,  7,  6,  0,  7,  2,  0,  6,  0,  0,  0,  0,  0,  0],
    [ 6,  2,  3,  7,  2,  7,  6,  0,  0,  0,  0,  0,  0,  0,  0,  0],
    [12, 11,  3,  2,  8,  6, 10,  9,  8, 10,  7,  6,  8,  0,  0,  0],
    [15,  7,  0,  2, 11,  7,  2,  7,  9,  0, 10,  7,  6,  7, 10,  9],
    [15,  0,  8,  1,  8,  7,  1,  7, 10,  1, 10,  7,  6, 11,  3,  2],
    [12,  1,  2, 11,  7,  1, 11,  1,  6, 10,  1,  7,  6,  0,  0,  0],
    [15,  6,  9,  8,  7,  6,  8,  6,  1,  9,  3,  6, 11,  6,  3,  1],
    [ 6,  1,  9,  0,  7,  6, 11,  0,  0,  0,  0,  0,  0,  0,  0,  0],
    [12,  0,  8,  7,  6,  0,  7,  0, 11,  3,  0,  6, 11,  0,  0,  0],
    [ 3,  6, 11,  7,  0,  0,  0,  0,  0,  0,  0,  0,  0,  0,  0,  0],
    [ 3, 11,  6,  7,  0,  0,  0,  0,  0,  0,  0,  0,  0,  0,  0,  0],
    [ 6,  8,  0,  3,  6,  7, 11,  0,  0,  0,  0,  0,  0,  0,  0,  0],
    [ 6,  9,  1,  0,  6,  7, 11,  0,  0,  0,  0,  0,  0,  0,  0,  0],
    [ 9,  9,  1,  8,  1,  3,  8,  6,  7, 11,  0,  0,  0,  0,  0,  0],
    [ 6,  2,  1, 10,  7, 11,  6,  0,  0,  0,  0,  0,  0,  0,  0,  0],
    [ 9, 10,  2,  1,  8,  0,  3,  7, 11,  6,  0,  0,  0,  0,  0,  0],
    [ 9,  0,  9,  2,  9, 10,  2,  7, 11,  6,  0,  0,  0,  0,  0,  0],
    [12,  7, 11,  6,  3, 10,  2,  3,  8, 10,  8,  9, 10,  0,  0,  0],
    [ 6,  3,  2,  7,  7,  2,  6,  0,  0,  0,  0,  0,  0,  0,  0,  0],
    [ 9,  8,  0,  7,  0,  6,  7,  0,  2,  6,  0,  0,  0,  0,  0,  0],
    [ 9,  6,  7,  2,  7,  3,  2,  9,  1,  0,  0,  0,  0,  0,  0,  0],
    [12,  2,  6,  1,  6,  8,  1,  8,  9,  1,  6,  7,  8,  0,  0,  0],
    [ 9,  6,  7, 10,  7,  1, 10,  7,  3,  1,  0,  0,  0,  0,  0,  0],
    [12,  6,  7, 10, 10,  7,  1,  7,  8,  1,  8,  0,  1,  0,  0,  0],
    [12,  7,  3,  0, 10,  7,  0,  9, 10,  0,  7, 10,  6,  0,  0,  0],
    [ 9, 10,  6,  7,  8, 10,  7,  9, 10,  8,  0,  0,  0,  0,  0,  0],
    [ 6,  4,  8,  6,  6,  8, 11,  0,  0,  0,  0,  0,  0,  0,  0,  0],
    [ 9, 11,  6,  3,  6,  0,  3,  6,  4,  0,  0,  0,  0,  0,  0,  0],
    [ 9, 11,  6,  8,  6,  4,  8,  1,  0,  9,  0,  0,  0,  0,  0,  0],
    [12,  6,  4,  9,  3,  6,  9,  1,  3,  9,  6,  3, 11,  0,  0,  0],
    [ 9,  4,  8,  6,  8, 11,  6,  1, 10,  2,  0,  0,  0,  0,  0,  0],
    [12, 10,  2,  1, 11,  0,  3, 11,  6,  0,  6,  4,  0,  0,  0,  0],
    [12,  8, 11,  4, 11,  6,  4,  9,  2,  0,  9, 10,  2,  0,  0,  0],
    [15,  3,  9, 10,  2,  3, 10,  3,  4,  9,  6,  3, 11,  3,  6,  4],
    [ 9,  3,  2,  8,  2,  4,  8,  2,  6,  4,  0,  0,  0,  0,  0,  0],
    [ 6,  2,  4,  0,  2,  6,  4,  0,  0,  0,  0,  0,  0,  0,  0,  0],
    [12,  0,  9,  1,  4,  3,  2,  6,  4,  2,  8,  3,  4,  0,  0,  0],
    [ 9,  4,  9,  1,  2,  4,  1,  6,  4,  2,  0,  0,  0,  0,  0,  0],
    [12,  3,  1,  8,  1,  6,  8,  6,  4,  8,  1, 10,  6,  0,  0,  0],
    [ 9,  0,  1, 10,  6,  0, 10,  4,  0,  6,  0,  0,  0,  0,  0,  0],
    [15,  3,  6,  4,  8,  3,  4,  3, 10,  6,  9,  3,  0,  3,  9, 10],
    [ 6,  4,  9, 10,  4, 10,  6,  0,  0,  0,  0,  0,  0,  0,  0,  0],
    [ 6,  5,  9,  4, 11,  6,  7,  0,  0,  0,  0,  0,  0,  0,  0,  0],
    [ 9,  3,  8,  0,  5,  9,  4,  6,  7, 11,  0,  0,  0,  0,  0,  0],
    [ 9,  1,  0,  5,  0,  4,  5, 11,  6,  7,  0,  0,  0,  0,  0,  0],
    [12,  6,  7, 11,  4,  3,  8,  4,  5,  3,  5,  1,  3,  0,  0,  0],
    [ 9,  4,  5,  9,  2,  1, 10, 11,  6,  7,  0,  0,  0,  0,  0,  0],
    [12,  7, 11,  6, 10,  2,  1,  3,  8,  0,  5,  9,  4,  0,  0,  0],
    [12, 11,  6,  7, 10,  4,  5, 10,  2,  4,  2,  0,  4,  0,  0,  0],
    [15,  8,  4,  3,  4,  5,  3,  5,  2,  3,  2,  5, 10,  6,  7, 11],
    [ 9,  3,  2,  7,  2,  6,  7,  9,  4,  5,  0,  0,  0,  0,  0,  0],
    [12,  4,  5,  9,  6,  8,  0,  2,  6,  0,  7,  8,  6,  0,  0,  0],
    [12,  2,  6,  3,  6,  7,  3,  0,  5,  1,  0,  4,  5,  0,  0,  0],
    [15,  8,  2,  6,  7,  8,  6,  8,  1,  2,  5,  8,  4,  8,  5,  1],
    [12,  4,  5,  9,  6,  1, 10,  6,  7,  1,  7,  3,  1,  0,  0,  0],
    [15, 10,  6,  1,  6,  7,  1,  7,  0,  1,  0,  7,  8,  4,  5,  9],
    [15, 10,  0,  4,  5, 10,  4, 10,  3,  0,  7, 10,  6, 10,  7,  3],
    [12, 10,  6,  7,  8, 10,  7, 10,  4,  5, 10,  8,  4,  0,  0,  0],
    [ 9,  5,  9,  6,  9, 11,  6,  9,  8, 11,  0,  0,  0,  0,  0,  0],
    [12, 11,  6,  3,  3,  6,  0,  6,  5,  0,  5,  9,  0,  0,  0,  0],
    [12,  8, 11,  0, 11,  5,  0,  5,  1,  0, 11,  6,  5,  0,  0,  0],
    [ 9,  3, 11,  6,  5,  3,  6,  1,  3,  5,  0,  0,  0,  0,  0,  0],
    [12, 10,  2,  1, 11,  5,  9,  8, 11,  9,  6,  5, 11,  0,  0,  0],
    [15,  3, 11,  0, 11,  6,  0,  6,  9,  0,  9,  6,  5, 10,  2,  1],
    [15,  5,  8, 11,  6,  5, 11,  5,  0,  8,  2,  5, 10,  5,  2,  0],
    [12,  3, 11,  6,  5,  3,  6,  3, 10,  2,  3,  5, 10,  0,  0,  0],
    [12,  9,  8,  5,  8,  2,  5,  2,  6,  5,  2,  8,  3,  0,  0,  0],
    [ 9,  6,  5,  9,  0,  6,  9,  2,  6,  0,  0,  0,  0,  0,  0,  0],
    [15,  8,  5,  1,  0,  8,  1,  8,  6,  5,  2,  8,  3,  8,  2,  6],
    [ 6,  6,  5,  1,  6,  1,  2,  0,  0,  0,  0,  0,  0,  0,  0,  0],
    [15,  6,  3,  1, 10,  6,  1,  6,  8,  3,  9,  6,  5,  6,  9,  8],
    [12,  0,  1, 10,  6,  0, 10,  0,  5,  9,  0,  6,  5,  0,  0,  0],
    [ 6,  8,  3,  0, 10,  6,  5,  0,  0,  0,  0,  0,  0,  0,  0,  0],
    [ 3,  6,  5, 10,  0,  0,  0,  0,  0,  0,  0,  0,  0,  0,  0,  0],
    [ 6, 10,  5, 11, 11,  5,  7,  0,  0,  0,  0,  0,  0,  0,  0,  0],
    [ 9, 10,  5, 11,  5,  7, 11,  0,  3,  8,  0,  0,  0,  0,  0,  0],
    [ 9,  7, 11,  5, 11, 10,  5,  0,  9,  1,  0,  0,  0,  0,  0,  0],
    [12,  5,  7, 10,  7, 11, 10,  1,  8,  9,  1,  3,  8,  0,  0,  0],
    [ 9,  2,  1, 11,  1,  7, 11,  1,  5,  7,  0,  0,  0,  0,  0,  0],
    [12,  3,  8,  0,  7,  2,  1,  5,  7,  1, 11,  2,  7,  0,  0,  0],
    [12,  5,  7,  9,  7,  2,  9,  2,  0,  9,  7, 11,  2,  0,  0,  0],
    [15,  2,  5,  7, 11,  2,  7,  2,  9,  5,  8,  2,  3,  2,  8,  9],
    [ 9, 10,  5,  2,  5,  3,  2,  5,  7,  3,  0,  0,  0,  0,  0,  0],
    [12,  0,  2,  8,  2,  5,  8,  5,  7,  8,  5,  2, 10,  0,  0,  0],
    [12,  1,  0,  9,  3, 10,  5,  7,  3,  5,  2, 10,  3,  0,  0,  0],
    [15,  2,  8,  9,  1,  2,  9,  2,  7,  8,  5,  2, 10,  2,  5,  7],
    [ 6,  5,  3,  1,  5,  7,  3,  0,  0,  0,  0,  0,  0,  0,  0,  0],
    [ 9,  7,  8,  0,  1,  7,  0,  5,  7,  1,  0,  0,  0,  0,  0,  0],
    [ 9,  3,  0,  9,  5,  3,  9,  7,  3,  5,  0,  0,  0,  0,  0,  0],
    [ 6,  7,  8,  9,  7,  9,  5,  0,  0,  0,  0,  0,  0,  0,  0,  0],
    [ 9,  4,  8,  5,  8, 10,  5,  8, 11, 10,  0,  0,  0,  0,  0,  0],
    [12,  4,  0,  5,  0, 11,  5, 11, 10,  5,  0,  3, 11,  0,  0,  0],
    [12,  9,  1,  0, 10,  4,  8, 11, 10,  8,  5,  4, 10,  0,  0,  0],
    [15,  4, 11, 10,  5,  4, 10,  4,  3, 11,  1,  4,  9,  4,  1,  3],
    [12,  1,  5,  2,  5,  8,  2,  8, 11,  2,  8,  5,  4,  0,  0,  0],
    [15, 11,  4,  0,  3, 11,  0, 11,  5,  4,  1, 11,  2, 11,  1,  5],
    [15,  5,  2,  0,  9,  5,  0,  5, 11,  2,  8,  5,  4,  5,  8, 11],
    [ 6,  5,  4,  9,  3, 11,  2,  0,  0,  0,  0,  0,  0,  0,  0,  0],
    [12, 10,  5,  2,  2,  5,  3,  5,  4,  3,  4,  8,  3,  0,  0,  0],
    [ 9,  2, 10,  5,  4,  2,  5,  0,  2,  4,  0,  0,  0,  0,  0,  0],
    [15,  2, 10,  3, 10,  5,  3,  5,  8,  3,  8,  5,  4,  9,  1,  0],
    [12,  2, 10,  5,  4,  2,  5,  2,  9,  1,  2,  4,  9,  0,  0,  0],
    [ 9,  5,  4,  8,  3,  5,  8,  1,  5,  3,  0,  0,  0,  0,  0,  0],
    [ 6,  5,  4,  0,  5,  0,  1,  0,  0,  0,  0,  0,  0,  0,  0,  0],
    [12,  5,  4,  8,  3,  5,  8,  5,  0,  9,  5,  3,  0,  0,  0,  0],
    [ 3,  5,  4,  9,  0,  0,  0,  0,  0,  0,  0,  0,  0,  0,  0,  0],
    [ 9,  7, 11,  4, 11,  9,  4, 11, 10,  9,  0,  0,  0,  0,  0,  0],
    [12,  3,  8,  0,  7,  9,  4,  7, 11,  9, 11, 10,  9,  0,  0,  0],
    [12, 11, 10,  1,  4, 11,  1,  0,  4,  1, 11,  4,  7,  0,  0,  0],
    [15,  4,  1,  3,  8,  4,  3,  4, 10,  1, 11,  4,  7,  4, 11, 10],
    [12,  7, 11,  4,  4, 11,  9, 11,  2,  9,  2,  1,  9,  0,  0,  0],
    [15,  4,  7,  9,  7, 11,  9, 11,  1,  9,  1, 11,  2,  3,  8,  0],
    [ 9,  4,  7, 11,  2,  4, 11,  0,  4,  2,  0,  0,  0,  0,  0,  0],
    [12,  4,  7, 11,  2,  4, 11,  4,  3,  8,  4,  2,  3,  0,  0,  0],
    [12, 10,  9,  2,  9,  7,  2,  7,  3,  2,  9,  4,  7,  0,  0,  0],
    [15,  7, 10,  9,  4,  7,  9,  7,  2, 10,  0,  7,  8,  7,  0,  2],
    [15, 10,  7,  3,  2, 10,  3, 10,  4,  7,  0, 10,  1, 10,  0,  4],
    [ 6,  2, 10,  1,  4,  7,  8,  0,  0,  0,  0,  0,  0,  0,  0,  0],
    [ 9,  1,  9,  4,  7,  1,  4,  3,  1,  7,  0,  0,  0,  0,  0,  0],
    [12,  1,  9,  4,  7,  1,  4,  1,  8,  0,  1,  7,  8,  0,  0,  0],
    [ 6,  3,  0,  4,  3,  4,  7,  0,  0,  0,  0,  0,  0,  0,  0,  0],
    [ 3,  7,  8,  4,  0,  0,  0,  0,  0,  0,  0,  0,  0,  0,  0,  0],
    [ 6,  8, 10,  9,  8, 11, 10,  0,  0,  0,  0,  0,  0,  0,  0,  0],
    [ 9,  9,  0,  3, 11,  9,  3, 10,  9, 11,  0,  0,  0,  0,  0,  0],
    [ 9, 10,  1,  0,  8, 10,  0, 11, 10,  8,  0,  0,  0,  0,  0,  0],
    [ 6, 10,  1,  3, 10,  3, 11,  0,  0,  0,  0,  0,  0,  0,  0,  0],
    [ 9, 11,  2,  1,  9, 11,  1,  8, 11,  9,  0,  0,  0,  0,  0,  0],
    [12,  9,  0,  3, 11,  9,  3,  9,  2,  1,  9, 11,  2,  0,  0,  0],
    [ 6, 11,  2,  0, 11,  0,  8,  0,  0,  0,  0,  0,  0,  0,  0,  0],
    [ 3, 11,  2,  3,  0,  0,  0,  0,  0,  0,  0,  0,  0,  0,  0,  0],
    [ 9,  8,  3,  2, 10,  8,  2,  9,  8, 10,  0,  0,  0,  0,  0,  0],
    [ 6,  2, 10,  9,  2,  9,  0,  0,  0,  0,  0,  0,  0,  0,  0,  0],
    [12,  8,  3,  2, 10,  8,  2,  8,  1,  0,  8, 10,  1,  0,  0,  0],
    [ 3,  2, 10,  1,  0,  0,  0,  0,  0,  0,  0,  0,  0,  0,  0,  0],
    [ 6,  8,  3,  1,  8,  1,  9,  0,  0,  0,  0,  0,  0,  0,  0,  0],
    [ 3,  1,  9,  0,  0,  0,  0,  0,  0,  0,  0,  0,  0,  0,  0,  0],
    [ 3,  8,  3,  0,  0,  0,  0,  0,  0,  0,  0,  0,  0,  0,  0,  0],
    [ 0,  0,  0,  0,  0,  0,  0,  0,  0,  0,  0,  0,  0,  0,  0,  0],
];

/// The two corners each of the twelve cell edges runs between.
pub const EDGE_CORNER_MAP: [[usize; 2]; 12] = [
    [0, 1],
    [1, 2],
    [2, 3],
    [3, 0],
    [4, 5],
    [5, 6],
    [6, 7],
    [7, 4],
    [0, 4],
    [1, 5],
    [2, 6],
    [3, 7],
];

#[verifier::rlimit(100)]
proof fn lemma_table_rows_0()
    ensures
        forall|case: int, j: int| 0 <= case < 32 && 1 <= j < 16 ==> #[trigger] CELL_EDGE_MAP@[case]@[j] < 12,
{
}

#[verifier::rlimit(100)]
proof fn lemma_table_rows_1()
    ensures
        forall|case: int, j: int| 32 <= case < 64 && 1 <= j < 16 ==> #[trigger] CELL_EDGE_MAP@[case]@[j] < 12,
{
}

#[verifier::rlimit(100)]
proof fn lemma_table_rows_2()
    ensures
        forall|case: int, j: int| 64 <= case < 96 && 1 <= j < 16 ==> #[trigger] CELL_EDGE_MAP@[case]@[j] < 12,
{
}

#[verifier::rlimit(100)]
proof fn lemma_table_rows_3()
    ensures
        forall|case: int, j: int| 96 <= case < 128 && 1 <= j < 16 ==> #[trigger] CELL_EDGE_MAP@[case]@[j] < 12,
{
}

#[verifier::rlimit(100)]
proof fn lemma_table_rows_4()
    ensures
        forall|case: int, j: int| 128 <= case < 160 && 1 <= j < 16 ==> #[trigger] CELL_EDGE_MAP@[case]@[j] < 12,
{
}

#[verifier::rlimit(100)]
proof fn lemma_table_rows_5()
    ensures
        forall|case: int, j: int| 160 <= case < 192 && 1 <= j < 16 ==> #[trigger] CELL_EDGE_MAP@[case]@[j] < 12,
{
}

#[verifier::rlimit(100)]
proof fn lemma_table_rows_6()
    ensures
        forall|case: int, j: int| 192 <= case < 224 && 1 <= j < 16 ==> #[trigger] CELL_EDGE_MAP@[case]@[j] < 12,
{
}

#[verifier::rlimit(100)]
proof fn lemma_table_rows_7()
    ensures
        forall|case: int, j: int| 224 <= case < 256 && 1 <= j < 16 ==> #[trigger] CELL_EDGE_MAP@[case]@[j] < 12,
{
}

/// Every edge index in the triangulation table names one of the twelve
/// edges.
pub proof fn lemma_table_edges_valid()
    ensures
        forall|case: int, j: int| 0 <= case < 256 && 1 <= j < 16 ==> #[trigger] CELL_EDGE_MAP@[case]@[j] < 12,
{
    lemma_table_rows_0();
    lemma_table_rows_1();
    lemma_table_rows_2();
    lemma_table_rows_3();
    lemma_table_rows_4();
    lemma_table_rows_5();
    lemma_table_rows_6();
    lemma_table_rows_7();
}

} // verus!
