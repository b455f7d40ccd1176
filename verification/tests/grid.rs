use repr_similarity::grid::grid_side;

#[test]
fn edge_of_a_square_grid() {
    for side in [0usize, 1, 2, 3, 14, 16, 24, 1000, 4096, 65535] {
        assert_eq!(grid_side(side * side), side);
    }
}

#[test]
fn edge_is_rounded_down() {
    assert_eq!(grid_side(2), 1);
    assert_eq!(grid_side(3), 1);
    assert_eq!(grid_side(8), 2);
    assert_eq!(grid_side(15), 3);
    assert_eq!(grid_side(24), 4);
    assert_eq!(grid_side(99), 9);
}

#[test]
fn edge_of_the_largest_count() {
    let side = grid_side(usize::MAX);
    assert_eq!(side as u128, (1u128 << (usize::BITS / 2)) - 1);
}

#[test]
fn edge_of_a_count_beyond_single_precision() {
    let side: usize = 16777217;
    assert_eq!(grid_side(side * side), side);
    assert_eq!(grid_side(side * side - 1), side - 1);
}
