use lithophane_creator::grid::{grid_sample_positions, normal_source_indices, strip_border};

#[test]
fn sample_positions_full_resolution_grid() {
    // A 2x2 image at step 1 samples a 4x4 bordered grid, row-major, with
    // the x index varying fastest.
    let r = grid_sample_positions(2, 2, 1);
    assert_eq!(r.len(), 16);
    assert_eq!(r[0], (-1, -1));
    assert_eq!(r[1], (0, -1));
    assert_eq!(r[3], (2, -1));
    assert_eq!(r[5], (0, 0));
    assert_eq!(r[15], (2, 2));
}

#[test]
fn sample_positions_stepped_grid() {
    // Width 15 at step 4 uses the documented index sequence on the x axis.
    let r = grid_sample_positions(15, 2, 4);
    let xs: Vec<i64> = (0..7).map(|i| r[i].0).collect();
    assert_eq!(xs, vec![-4, 0, 4, 8, 12, 14, 16]);
    assert_eq!(r.len(), 7 * 4);
    assert_eq!(r[7], (-4, 0));
}

#[test]
fn strip_border_keeps_interior() {
    // 4x4 bordered grid of the numbers 0..16; the interior is the middle
    // 2x2 block.
    let grid: Vec<u32> = (0..16).collect();
    let r = strip_border(&grid, 4, 4);
    assert_eq!(r, vec![5, 6, 9, 10]);
}

#[test]
fn strip_border_wide_grid() {
    let grid: Vec<u32> = (0..15).collect();
    let r = strip_border(&grid, 5, 3);
    assert_eq!(r, vec![6, 7, 8]);
}

#[test]
fn normal_sources_of_single_interior_vertex() {
    // A 3x3 bordered grid has one interior vertex, slot 4, with its four
    // neighbours around it.
    let r = normal_source_indices(3, 3);
    assert_eq!(r.len(), 1);
    assert_eq!(r[0].center, 4);
    assert_eq!(r[0].below, 7);
    assert_eq!(r[0].right, 5);
    assert_eq!(r[0].above, 1);
    assert_eq!(r[0].left, 3);
}

#[test]
fn normal_sources_row_major_order() {
    let r = normal_source_indices(4, 4);
    assert_eq!(r.len(), 4);
    // Interior (0, 0) sits at bordered slot 5.
    assert_eq!(r[0].center, 5);
    assert_eq!(r[0].below, 9);
    assert_eq!(r[0].right, 6);
    assert_eq!(r[0].above, 1);
    assert_eq!(r[0].left, 4);
    // Interior (1, 1) sits at bordered slot 10.
    assert_eq!(r[3].center, 10);
    assert_eq!(r[3].below, 14);
    assert_eq!(r[3].right, 11);
    assert_eq!(r[3].above, 6);
    assert_eq!(r[3].left, 9);
}
