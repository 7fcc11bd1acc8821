use lithophane_creator::indices::step_iter_with_size;

#[test]
fn step_sequence_documented_example() {
    // length 15, step 4: regular steps, the snapped edge, the mirrored tail.
    let v = step_iter_with_size(15, 4);
    assert_eq!(v, vec![-4, 0, 4, 8, 12, 14, 16]);
}

#[test]
fn step_sequence_full_resolution() {
    // Step 1 gives every index from -1 to length inclusive.
    let v = step_iter_with_size(5, 1);
    assert_eq!(v, vec![-1, 0, 1, 2, 3, 4, 5]);
}

#[test]
fn step_sequence_regular_step_lands_on_edge() {
    // length 5, step 2: the regular steps land on 4 == length - 1 exactly,
    // so no extra edge index is inserted before the mirrored tail.
    let v = step_iter_with_size(5, 2);
    assert_eq!(v, vec![-2, 0, 2, 4, 6]);
}

#[test]
fn step_sequence_degenerate_axis() {
    // An axis of length 1 still gets its border on both sides.
    let v = step_iter_with_size(1, 3);
    assert_eq!(v, vec![-3, 0, 3]);
}

#[test]
fn step_sequence_always_holds_edge_and_symmetric_tail() {
    for &(length, step) in &[(2u32, 1u32), (7, 3), (16, 4), (15, 4), (9, 8), (100, 7)] {
        let v = step_iter_with_size(length, step);
        let n = v.len();
        assert_eq!(v[n - 2], (length - 1) as i64);
        // The tail is symmetric around length - 1.
        assert_eq!(v[n - 1] - (length - 1) as i64, (length - 1) as i64 - v[n - 3]);
    }
}
