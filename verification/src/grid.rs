//! The square grid behind a table: its edge, derived from the number of
//! positions, and the flat index of a cell.
use vstd::prelude::*;

verus! {

/// Whether `root` is the integer square root of `n`, rounded down.
pub open spec fn is_floor_root(n: nat, root: nat) -> bool {
    root * root <= n < (root + 1) * (root + 1)
}

/// The edge of the grid with `positions` cells: the integer square root of
/// `positions`, rounded down.
pub open spec fn side_of(positions: nat) -> nat {
    choose|root: nat| is_floor_root(positions, root)
}

/// The flat index of the cell in row `row` and column `col` of a grid of edge
/// `side`.
pub open spec fn flat_index(side: nat, row: nat, col: nat) -> nat {
    row * side + col
}

/// Squaring keeps the order of the naturals.
proof fn lemma_square_monotonic(a: nat, b: nat)
    requires
        a <= b,
    ensures
        a * a <= b * b,
{
    assert(a * a <= b * b) by (nonlinear_arith)
        requires
            0 <= a <= b,
    ;
}

/// A number has one integer square root, and [`side_of`] is it.
pub proof fn lemma_floor_root_unique(n: nat, root: nat)
    requires
        is_floor_root(n, root),
    ensures
        side_of(n) == root,
{
    let other = side_of(n);
    assert(is_floor_root(n, other));
    if other < root {
        lemma_square_monotonic(other + 1, root);
    } else if root < other {
        lemma_square_monotonic(root + 1, other);
    }
}

/// The grid with `side * side` cells has the edge `side`.
pub proof fn lemma_side_of_square(side: nat)
    ensures
        side_of(side * side) == side,
{
    lemma_square_monotonic(side, side + 1);
    assert(side * side < (side + 1) * (side + 1)) by (nonlinear_arith);
    lemma_floor_root_unique(side * side, side);
}

/// Every cell of a grid of edge `side` has a flat index below the number of
/// cells.
pub proof fn lemma_cell_in_grid(side: nat, row: nat, col: nat)
    requires
        row < side,
        col < side,
    ensures
        flat_index(side, row, col) < side * side,
{
    assert(row * side + col < side * side) by (nonlinear_arith)
        requires
            0 <= row,
            row + 1 <= side,
            0 <= col < side,
    ;
}

/// Computes [`side_of`].
pub fn grid_side(positions: usize) -> (side: usize)
    ensures
        side == side_of(positions as nat),
        is_floor_root(positions as nat, side as nat),
{
    let n: u128 = positions as u128;
    let mut low: u128 = 0;
    let mut high: u128 = n + 1;
    assert(n < (n + 1) * (n + 1)) by (nonlinear_arith)
        requires
            0 <= n,
    ;
    while high - low > 1
        invariant
            n == positions,
            low < high <= n + 1,
            low * low <= n < high * high,
        decreases high - low,
    {
        let mid: u128 = low + (high - low) / 2;
        assert(mid * mid <= u128::MAX) by (nonlinear_arith)
            requires
                0 <= mid <= 0xffff_ffff_ffff_ffff,
        ;
        if mid * mid <= n {
            low = mid;
        } else {
            high = mid;
        }
    }
    proof {
        assert(low * low <= n) ;
        assert(low <= n) by (nonlinear_arith)
            requires
                0 <= low,
                low * low <= n,
        ;
        lemma_floor_root_unique(positions as nat, low as nat);
    }
    low as usize
}

} // verus!
