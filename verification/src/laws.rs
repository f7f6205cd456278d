//! General laws of the simulation engine, proved once for every grid they
//! speak of: neighbor-count bounds, the transition rule's population cases,
//! the stability of a block, the blinker's oscillation, and the fixed point
//! of the empty grid.

use vstd::prelude::*;

use crate::universe::{advances_to, Cell, Universe};

verus! {

/// Every in-bounds cell of the grid holds `state`.
pub open spec fn all_cells_are(u: Universe, state: Cell) -> bool {
    forall|row: int, col: int|
        u.in_bounds(row, col) ==> #[trigger] u.spec_cell_at(row, col) == state
}

/// A 2x2 block of live cells with its top-left corner at `(top, left)`,
/// every other cell dead.
pub open spec fn lone_block_at(u: Universe, top: int, left: int) -> bool {
    forall|row: int, col: int|
        u.in_bounds(row, col) ==> #[trigger] u.spec_cell_at(row, col) == (if top <= row < top + 2
            && left <= col < left + 2 {
            Cell::Alive
        } else {
            Cell::Dead
        })
}

/// The horizontal blinker: live cells at `(2,1)`, `(2,2)`, `(2,3)`, every
/// other cell dead.
pub open spec fn horizontal_blinker(u: Universe) -> bool {
    forall|row: int, col: int|
        u.in_bounds(row, col) ==> #[trigger] u.spec_cell_at(row, col) == (if row == 2 && 1 <= col
            <= 3 {
            Cell::Alive
        } else {
            Cell::Dead
        })
}

/// The vertical blinker: live cells at `(1,2)`, `(2,2)`, `(3,2)`, every
/// other cell dead.
pub open spec fn vertical_blinker(u: Universe) -> bool {
    forall|row: int, col: int|
        u.in_bounds(row, col) ==> #[trigger] u.spec_cell_at(row, col) == (if col == 2 && 1 <= row
            <= 3 {
            Cell::Alive
        } else {
            Cell::Dead
        })
}

/// Two well-formed grids of the same dimensions whose cells agree at every
/// in-bounds position have equal cell sequences.
proof fn lemma_cells_equal_pointwise(a: Universe, b: Universe)
    requires
        a.well_formed(),
        b.well_formed(),
        a.spec_width() == b.spec_width(),
        a.spec_height() == b.spec_height(),
        forall|row: int, col: int|
            a.in_bounds(row, col) ==> #[trigger] a.spec_cell_at(row, col) == b.spec_cell_at(
                row,
                col,
            ),
    ensures
        a.spec_cells() == b.spec_cells(),
{
    let w = a.spec_width();
    let h = a.spec_height();
    assert forall|k: int| 0 <= k < a.spec_cells().len() implies a.spec_cells()[k]
        == b.spec_cells()[k] by {
        let row = k / w;
        let col = k % w;
        vstd::arithmetic::div_mod::lemma_fundamental_div_mod(k, w);
        vstd::arithmetic::div_mod::lemma_mod_bound(k, w);
        assert(0 <= row < h) by (nonlinear_arith)
            requires
                0 < w,
                k == w * row + col,
                0 <= col < w,
                0 <= k < w * h,
        ;
        assert(a.spec_index_of(row, col) == k) by (nonlinear_arith)
            requires
                k == w * row + col,
                a.spec_index_of(row, col) == row * w + col,
        ;
        assert(a.spec_cell_at(row, col) == b.spec_cell_at(row, col));
    };
    assert(a.spec_cells() =~= b.spec_cells());
}

/// On an all-dead grid, every cell counts zero live neighbors.
pub proof fn lemma_live_neighbors_all_dead(u: Universe, row: int, col: int)
    requires
        u.well_formed(),
        all_cells_are(u, Cell::Dead),
        u.in_bounds(row, col),
    ensures
        u.spec_live_neighbors(row, col) == 0,
{
    reveal(Universe::spec_live_neighbors);
}

/// On an all-live grid, a cell counts exactly its in-bounds neighbors:
/// eight in the interior, five on an edge away from the corners, three in a
/// corner (of a grid with at least two rows and two columns).
pub proof fn lemma_live_neighbors_all_alive(u: Universe, row: int, col: int)
    requires
        u.well_formed(),
        all_cells_are(u, Cell::Alive),
        u.in_bounds(row, col),
    ensures
        0 < row < u.spec_height() - 1 && 0 < col < u.spec_width() - 1 ==> u.spec_live_neighbors(
            row,
            col,
        ) == 8,
        2 <= u.spec_height() && 2 <= u.spec_width() && (row == 0 || row == u.spec_height() - 1) && (
        col == 0 || col == u.spec_width() - 1) ==> u.spec_live_neighbors(row, col) == 3,
        2 <= u.spec_height() && (row == 0 || row == u.spec_height() - 1) && 0 < col < u.spec_width()
            - 1 ==> u.spec_live_neighbors(row, col) == 5,
        2 <= u.spec_width() && (col == 0 || col == u.spec_width() - 1) && 0 < row
            < u.spec_height() - 1 ==> u.spec_live_neighbors(row, col) == 5,
{
    reveal(Universe::spec_live_neighbors);
}

/// Underpopulation: a live cell with fewer than two live neighbors dies.
pub proof fn lemma_underpopulation(u: Universe, row: int, col: int)
    requires
        u.well_formed(),
        u.in_bounds(row, col),
        u.spec_cell_at(row, col) == Cell::Alive,
        u.spec_live_neighbors(row, col) < 2,
    ensures
        u.spec_next_cell(row, col) == Cell::Dead,
{
}

/// Overpopulation: a live cell with more than three live neighbors dies.
pub proof fn lemma_overpopulation(u: Universe, row: int, col: int)
    requires
        u.well_formed(),
        u.in_bounds(row, col),
        u.spec_cell_at(row, col) == Cell::Alive,
        u.spec_live_neighbors(row, col) > 3,
    ensures
        u.spec_next_cell(row, col) == Cell::Dead,
{
}

/// Reproduction: a dead cell with exactly three live neighbors comes alive.
pub proof fn lemma_reproduction(u: Universe, row: int, col: int)
    requires
        u.well_formed(),
        u.in_bounds(row, col),
        u.spec_cell_at(row, col) == Cell::Dead,
        u.spec_live_neighbors(row, col) == 3,
    ensures
        u.spec_next_cell(row, col) == Cell::Alive,
{
}

/// Fixed point: advancing an all-dead grid leaves every cell dead and
/// reports no change.
pub proof fn lemma_all_dead_fixed_point(pre: Universe, post: Universe)
    requires
        pre.well_formed(),
        all_cells_are(pre, Cell::Dead),
        advances_to(pre, post),
    ensures
        all_cells_are(post, Cell::Dead),
        !post.spec_changed(),
{
    assert forall|row: int, col: int| pre.in_bounds(row, col) implies #[trigger] pre.spec_next_cell(
        row,
        col,
    ) == Cell::Dead by {
        reveal(Universe::spec_live_neighbors);
    };
}

/// Still life: a lone 2x2 block whose surrounding ring lies inside the grid
/// is unchanged by one advance, and the advance reports no change.
pub proof fn lemma_block_is_still_life(pre: Universe, post: Universe, top: int, left: int)
    requires
        pre.well_formed(),
        1 <= top,
        top + 3 <= pre.spec_height(),
        1 <= left,
        left + 3 <= pre.spec_width(),
        lone_block_at(pre, top, left),
        advances_to(pre, post),
    ensures
        post.spec_cells() == pre.spec_cells(),
        !post.spec_changed(),
{
    assert forall|row: int, col: int| pre.in_bounds(row, col) implies #[trigger] pre.spec_next_cell(
        row,
        col,
    ) == pre.spec_cell_at(row, col) by {
        reveal(Universe::spec_live_neighbors);
    };
    lemma_cells_equal_pointwise(post, pre);
}

/// Oscillation: from the horizontal blinker on a grid of at least 5x5, one
/// advance yields the vertical blinker and a second advance restores the
/// horizontal blinker; both advances report a change.
pub proof fn lemma_blinker_oscillates(u0: Universe, u1: Universe, u2: Universe)
    requires
        u0.well_formed(),
        5 <= u0.spec_width(),
        5 <= u0.spec_height(),
        horizontal_blinker(u0),
        advances_to(u0, u1),
        advances_to(u1, u2),
    ensures
        vertical_blinker(u1),
        horizontal_blinker(u2),
        u2.spec_cells() == u0.spec_cells(),
        u1.spec_changed(),
        u2.spec_changed(),
{
    assert forall|row: int, col: int| u0.in_bounds(row, col) implies #[trigger] u0.spec_next_cell(
        row,
        col,
    ) == (if col == 2 && 1 <= row <= 3 {
        Cell::Alive
    } else {
        Cell::Dead
    }) by {
        reveal(Universe::spec_live_neighbors);
    };
    assert(vertical_blinker(u1));
    assert(u0.spec_next_cell(1, 2) != u0.spec_cell_at(1, 2));
    assert forall|row: int, col: int| u1.in_bounds(row, col) implies #[trigger] u1.spec_next_cell(
        row,
        col,
    ) == (if row == 2 && 1 <= col <= 3 {
        Cell::Alive
    } else {
        Cell::Dead
    }) by {
        reveal(Universe::spec_live_neighbors);
    };
    assert(horizontal_blinker(u2));
    assert(u1.spec_next_cell(2, 1) != u1.spec_cell_at(2, 1));
    lemma_cells_equal_pointwise(u2, u0);
}

} // verus!
