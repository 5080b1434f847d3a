use solarscape::mesh::{cell_triangles, chunk_triangle_count, edge_data, edge_materials, keeps_mesh, material_halves};
use solarscape::triangulation::{CELL_EDGE_MAP, EDGE_CORNER_MAP};

#[test]
fn table_rows() {
    let data = edge_data(1);
    assert_eq!(data.count, 3);
    assert_eq!(data.edge_indices, [3, 8, 0, 0, 0, 0, 0, 0, 0, 0, 0, 0, 0, 0, 0]);
    assert_eq!(edge_data(0).count, 0);
    assert_eq!(edge_data(255).count, 0);
    assert_eq!(CELL_EDGE_MAP.len(), 256);
    assert_eq!(EDGE_CORNER_MAP[8], [0, 4]);
}

#[test]
fn empty_and_full_cells_have_no_triangles() {
    assert!(cell_triangles(0).is_empty());
    assert!(cell_triangles(255).is_empty());
}

#[test]
fn triangles_are_taken_in_groups_of_three_edges() {
    let triangles = cell_triangles(1);
    assert_eq!(triangles.len(), 3);
    assert_eq!(triangles[0], [[3, 0], [0, 4], [0, 1]]);
    assert_eq!(triangles[1], [[0, 1], [0, 1], [0, 1]]);
    let many = cell_triangles(7);
    assert_eq!(many.len(), 5);
    assert_eq!(many[0], [[3, 0], [0, 4], [2, 3]]);
}

#[test]
fn empty_edge_ends_take_the_other_material() {
    assert_eq!(edge_materials(5u8, false, 7u8, false), (5, 7));
    assert_eq!(edge_materials(0u8, true, 7u8, false), (7, 7));
    assert_eq!(edge_materials(5u8, false, 0u8, true), (5, 5));
    assert_eq!(edge_materials(1u8, true, 2u8, true), (2, 1));
}

#[test]
fn material_numbers_split_into_two_bit_halves() {
    assert_eq!(material_halves(0), [0, 0]);
    assert_eq!(material_halves(3), [0, 3]);
    assert_eq!(material_halves(6), [1, 2]);
    assert_eq!(material_halves(15), [3, 3]);
    assert_eq!(material_halves(0x1D), [3, 1]);
}

#[test]
fn chunk_triangles_are_counted_over_all_cells() {
    assert_eq!(chunk_triangle_count(&vec![false; 4913]), 0);
    assert_eq!(chunk_triangle_count(&vec![true; 4913]), 0);
    let mut one = vec![false; 4913];
    one[0] = true;
    // Sample (0, 0, 0) is corner 3 of cell (0, 0, 0) and of no other cell.
    assert_eq!(chunk_triangle_count(&one), cell_triangles(8).len());
    let mut centre = vec![false; 4913];
    centre[8 * 289 + 8 * 17 + 8] = true;
    let expected: usize = [1usize, 2, 4, 8, 16, 32, 64, 128].iter().map(|&case| cell_triangles(case).len()).sum();
    assert_eq!(chunk_triangle_count(&centre), expected);
}

#[test]
fn meshes_are_kept_only_when_complete_and_not_empty() {
    assert!(keeps_mesh(false, 3));
    assert!(!keeps_mesh(false, 0));
    assert!(!keeps_mesh(true, 3));
}
