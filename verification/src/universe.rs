//! The grid simulation engine: the cell matrix, its neighbor-counting rule,
//! and the generation-advance operation.

use vstd::prelude::*;

verus! {

/// The state of one grid cell.
#[derive(Clone, Copy, Debug, PartialEq, Eq, Structural)]
pub enum Cell {
    Dead,
    Alive,
}

/// Why a request on the grid was refused.
#[derive(Clone, Copy, Debug, PartialEq, Eq, Structural)]
pub enum GridError {
    /// A grid was requested with a zero width or height, or with a cell
    /// sequence whose length does not match the requested dimensions.
    InvalidDimensions,
    /// A cell was requested at a row or column outside the grid's extent.
    IndexOutOfBounds,
}

/// A fixed-size rectangular grid of cells, advanced one generation at a time.
///
/// The cells are stored in row-major order: the cell at `(row, column)` sits
/// at index `row * width + column`. The borders are clamped: a cell on an
/// edge simply has fewer neighbors.
pub struct Universe {
    width: u32,
    height: u32,
    cells: Vec<Cell>,
    dirty: bool,
}

/// Relies on rand::random, which draws a value from the thread-local
/// generator; nothing is promised of the value drawn.
pub assume_specification<T>[ rand::random::<T> ]() -> (r: T)
    where
        rand::distributions::Standard: rand::distributions::Distribution<T>,
;

impl Universe {
    /// The grid's width, as specifications see it.
    pub closed spec fn spec_width(&self) -> int {
        self.width as int
    }

    /// The grid's height, as specifications see it.
    pub closed spec fn spec_height(&self) -> int {
        self.height as int
    }

    /// The cell matrix in row-major order, as specifications see it.
    pub closed spec fn spec_cells(&self) -> Seq<Cell> {
        self.cells@
    }

    /// Whether the most recent generation advance altered at least one cell.
    /// A freshly constructed grid carries the flag set.
    pub closed spec fn spec_changed(&self) -> bool {
        self.dirty
    }

    /// The grid's structural invariant: positive dimensions and a cell
    /// sequence of exactly `width * height` entries.
    pub open spec fn well_formed(&self) -> bool {
        &&& 0 < self.spec_width()
        &&& 0 < self.spec_height()
        &&& self.spec_cells().len() == self.spec_width() * self.spec_height()
    }

    /// Whether `(row, col)` lies inside the grid's extent.
    pub open spec fn in_bounds(&self, row: int, col: int) -> bool {
        &&& 0 <= row < self.spec_height()
        &&& 0 <= col < self.spec_width()
    }

    /// The row-major index of `(row, col)`.
    pub open spec fn spec_index_of(&self, row: int, col: int) -> int {
        row * self.spec_width() + col
    }

    /// The state of the cell at `(row, col)`.
    pub open spec fn spec_cell_at(&self, row: int, col: int) -> Cell {
        self.spec_cells()[self.spec_index_of(row, col)]
    }

    /// Contributes 1 when `(row, col)` is inside the grid and alive, and 0
    /// otherwise; out-of-bounds positions never count (clamped borders).
    pub open spec fn spec_live_at(&self, row: int, col: int) -> int {
        if self.in_bounds(row, col) && self.spec_cell_at(row, col) == Cell::Alive {
            1
        } else {
            0
        }
    }

    /// How many of the up-to-eight neighbors of `(row, col)` are alive.
    /// Kept opaque so that reasoning about whole generations does not unfold
    /// a neighborhood at every position; proofs that count neighbors reveal
    /// it explicitly.
    #[verifier::opaque]
    pub open spec fn spec_live_neighbors(&self, row: int, col: int) -> int {
        self.spec_live_at(row - 1, col - 1) + self.spec_live_at(row - 1, col) + self.spec_live_at(
            row - 1,
            col + 1,
        ) + self.spec_live_at(row, col - 1) + self.spec_live_at(row, col + 1) + self.spec_live_at(
            row + 1,
            col - 1,
        ) + self.spec_live_at(row + 1, col) + self.spec_live_at(row + 1, col + 1)
    }

    /// The state the cell at `(row, col)` takes in the next generation,
    /// under the standard Game-of-Life transition rule.
    pub open spec fn spec_next_cell(&self, row: int, col: int) -> Cell {
        let n = self.spec_live_neighbors(row, col);
        match self.spec_cell_at(row, col) {
            Cell::Alive => if n == 2 || n == 3 {
                Cell::Alive
            } else {
                Cell::Dead
            },
            Cell::Dead => if n == 3 {
                Cell::Alive
            } else {
                Cell::Dead
            },
        }
    }

    /// The coin-to-cell decision of random construction: an odd byte yields
    /// a live cell, an even byte a dead one.
    pub open spec fn spec_cell_from_coin(byte: u8) -> Cell {
        if byte % 2 == 1 {
            Cell::Alive
        } else {
            Cell::Dead
        }
    }

    /// Decides one cell of a randomly constructed grid from the byte drawn
    /// for it: `Alive` exactly when the byte is odd.
    pub fn cell_from_coin(byte: u8) -> (cell: Cell)
        ensures
            cell == Universe::spec_cell_from_coin(byte),
    {
        if byte % 2 == 1 {
            Cell::Alive
        } else {
            Cell::Dead
        }
    }

    /// Builds a grid of the given dimensions, each cell independently set to
    /// `Alive` or `Dead` by a coin flip from the process-level random source:
    /// one byte is drawn per cell in index order and `cell_from_coin` decides
    /// the cell. Zero dimensions are refused with `InvalidDimensions`.
    pub fn new(width: u32, height: u32) -> (result: Result<Universe, GridError>)
        ensures
            match result {
                Ok(u) => 0 < width && 0 < height && u.well_formed() && u.spec_width()
                    == width as int && u.spec_height() == height as int && u.spec_changed(),
                Err(e) => e == GridError::InvalidDimensions && (width == 0 || height == 0),
            },
    {
        if width == 0 || height == 0 {
            return Err(GridError::InvalidDimensions);
        }
        proof {
            assert((width as int) * (height as int) <= u64::MAX) by (nonlinear_arith)
                requires
                    width <= u32::MAX,
                    height <= u32::MAX,
            ;
        }
        let total: u64 = (width as u64) * (height as u64);
        let mut cells: Vec<Cell> = Vec::new();
        let mut i: u64 = 0;
        while i < total
            invariant
                i <= total,
                cells@.len() == i as int,
            decreases total - i,
        {
            let byte: u8 = rand::random::<u8>();
            cells.push(Universe::cell_from_coin(byte));
            i = i + 1;
        }
        Ok(Universe { width, height, cells, dirty: true })
    }

    /// Builds a grid of the given dimensions from an explicit cell sequence
    /// in row-major order, for deterministic construction. Zero dimensions,
    /// or a sequence whose length does not equal `width * height`, are
    /// refused with `InvalidDimensions`.
    pub fn from_cells(width: u32, height: u32, cells: Vec<Cell>) -> (result: Result<
        Universe,
        GridError,
    >)
        ensures
            match result {
                Ok(u) => 0 < width && 0 < height && cells@.len() == (width as int) * (
                height as int) && u.well_formed() && u.spec_width() == width as int
                    && u.spec_height() == height as int && u.spec_cells() == cells@
                    && u.spec_changed(),
                Err(e) => e == GridError::InvalidDimensions && (width == 0 || height == 0
                    || cells@.len() != (width as int) * (height as int)),
            },
    {
        if width == 0 || height == 0 {
            return Err(GridError::InvalidDimensions);
        }
        proof {
            assert((width as int) * (height as int) <= u64::MAX) by (nonlinear_arith)
                requires
                    width <= u32::MAX,
                    height <= u32::MAX,
            ;
        }
        let total: u64 = (width as u64) * (height as u64);
        if cells.len() as u64 != total {
            return Err(GridError::InvalidDimensions);
        }
        Ok(Universe { width, height, cells, dirty: true })
    }

    /// The grid's width.
    pub fn width(&self) -> (w: u32)
        ensures
            w as int == self.spec_width(),
    {
        self.width
    }

    /// The grid's height.
    pub fn height(&self) -> (h: u32)
        ensures
            h as int == self.spec_height(),
    {
        self.height
    }

    /// Whether the most recent generation advance altered at least one cell.
    pub fn changed(&self) -> (c: bool)
        ensures
            c == self.spec_changed(),
    {
        self.dirty
    }

    /// The row-major index of `(row, column)`, always in bounds for the
    /// cell sequence.
    pub fn get_index(&self, row: u32, column: u32) -> (idx: usize)
        requires
            self.well_formed(),
            self.in_bounds(row as int, column as int),
        ensures
            idx == self.spec_index_of(row as int, column as int),
            idx < self.spec_cells().len(),
    {
        // binding the length as a usize also bounds the index, which stays
        // below it, within the machine word
        let len: usize = self.cells.len();
        proof {
            lemma_row_major_bound(self.spec_width(), self.spec_height(), row as int, column as int);
        }
        (row as usize) * (self.width as usize) + (column as usize)
    }

    /// How many of the up-to-eight neighbors of `(row, column)` are alive.
    /// Each of the eight offsets is checked against the grid's extent and
    /// skipped when it falls outside (clamped borders).
    pub fn live_neighbors(&self, row: u32, column: u32) -> (count: u8)
        requires
            self.well_formed(),
            self.in_bounds(row as int, column as int),
        ensures
            count as int == self.spec_live_neighbors(row as int, column as int),
            count <= 8,
    {
        proof {
            reveal(Universe::spec_live_neighbors);
        }
        let up = row > 0;
        let down = row + 1 < self.height;
        let left = column > 0;
        let right = column + 1 < self.width;
        let n1: u8 = if up && left && self.get_cell_state(row - 1, column - 1) == Cell::Alive {
            1
        } else {
            0
        };
        assert(n1 as int == self.spec_live_at((row as int) - 1, (column as int) - 1));
        let n2: u8 = if up && self.get_cell_state(row - 1, column) == Cell::Alive {
            1
        } else {
            0
        };
        assert(n2 as int == self.spec_live_at((row as int) - 1, column as int));
        let n3: u8 = if up && right && self.get_cell_state(row - 1, column + 1) == Cell::Alive {
            1
        } else {
            0
        };
        assert(n3 as int == self.spec_live_at((row as int) - 1, (column as int) + 1));
        let n4: u8 = if left && self.get_cell_state(row, column - 1) == Cell::Alive {
            1
        } else {
            0
        };
        assert(n4 as int == self.spec_live_at(row as int, (column as int) - 1));
        let n5: u8 = if right && self.get_cell_state(row, column + 1) == Cell::Alive {
            1
        } else {
            0
        };
        assert(n5 as int == self.spec_live_at(row as int, (column as int) + 1));
        let n6: u8 = if down && left && self.get_cell_state(row + 1, column - 1) == Cell::Alive {
            1
        } else {
            0
        };
        assert(n6 as int == self.spec_live_at((row as int) + 1, (column as int) - 1));
        let n7: u8 = if down && self.get_cell_state(row + 1, column) == Cell::Alive {
            1
        } else {
            0
        };
        assert(n7 as int == self.spec_live_at((row as int) + 1, column as int));
        let n8: u8 = if down && right && self.get_cell_state(row + 1, column + 1) == Cell::Alive {
            1
        } else {
            0
        };
        assert(n8 as int == self.spec_live_at((row as int) + 1, (column as int) + 1));
        n1 + n2 + n3 + n4 + n5 + n6 + n7 + n8
    }

    /// The current state of the cell at `(row, column)`.
    pub fn get_cell_state(&self, row: u32, column: u32) -> (cell: Cell)
        requires
            self.well_formed(),
            self.in_bounds(row as int, column as int),
        ensures
            cell == self.spec_cell_at(row as int, column as int),
    {
        let idx = self.get_index(row, column);
        self.cells[idx]
    }

    /// Advances the whole grid by one generation. Every cell's next state is
    /// computed from the pre-advance state alone, into a fresh buffer that
    /// replaces the cell sequence at the end (double buffering), and the
    /// changed flag records whether any cell's state differs between the two
    /// generations.
    #[verifier::loop_isolation(false)]
    pub fn tick(&mut self)
        requires
            old(self).well_formed(),
        ensures
            final(self).well_formed(),
            advances_to(*old(self), *final(self)),
    {
        let height = self.height;
        let width = self.width;
        let ghost w = self.spec_width();
        let ghost h = self.spec_height();
        let mut next: Vec<Cell> = Vec::new();
        let mut changed: bool = false;
        let mut row: u32 = 0;
        while row < height
            invariant
                row <= height,
                next@.len() == self.spec_index_of(row as int, 0),
                forall|r: int, c: int|
                    self.in_bounds(r, c) && #[trigger] self.spec_index_of(r, c) < next@.len()
                        ==> next@[self.spec_index_of(r, c)] == self.spec_next_cell(r, c),
                changed <==> exists|r: int, c: int|
                    self.in_bounds(r, c) && #[trigger] self.spec_index_of(r, c) < next@.len()
                        && self.spec_next_cell(r, c) != self.spec_cell_at(r, c),
            decreases height - row,
        {
            let mut col: u32 = 0;
            while col < width
                invariant
                    col <= width,
                    next@.len() == self.spec_index_of(row as int, col as int),
                    forall|r: int, c: int|
                        self.in_bounds(r, c) && #[trigger] self.spec_index_of(r, c) < next@.len()
                            ==> next@[self.spec_index_of(r, c)] == self.spec_next_cell(r, c),
                    changed <==> exists|r: int, c: int|
                        self.in_bounds(r, c) && #[trigger] self.spec_index_of(r, c) < next@.len()
                            && self.spec_next_cell(r, c) != self.spec_cell_at(r, c),
                decreases width - col,
            {
                let cell = self.get_cell_state(row, col);
                let n = self.live_neighbors(row, col);
                let next_cell = match cell {
                    Cell::Alive => if n == 2 || n == 3 {
                        Cell::Alive
                    } else {
                        Cell::Dead
                    },
                    Cell::Dead => if n == 3 {
                        Cell::Alive
                    } else {
                        Cell::Dead
                    },
                };
                if next_cell != cell {
                    changed = true;
                }
                next.push(next_cell);
                proof {
                    let r0 = row as int;
                    let c0 = col as int;
                    lemma_row_major_bound(w, h, r0, c0);
                    assert(next_cell == self.spec_next_cell(r0, c0));
                    assert forall|r: int, c: int|
                        self.in_bounds(r, c) && #[trigger] self.spec_index_of(r, c)
                            < next@.len() implies next@[self.spec_index_of(r, c)]
                        == self.spec_next_cell(r, c) by {
                        lemma_row_major_bound(w, h, r, c);
                        if self.spec_index_of(r, c) == self.spec_index_of(r0, c0) {
                            lemma_row_major_injective(w, r, c, r0, c0);
                        }
                    };
                    if changed {
                        if next_cell != cell {
                            assert(self.in_bounds(r0, c0) && self.spec_index_of(r0, c0)
                                < next@.len() && self.spec_next_cell(r0, c0) != self.spec_cell_at(
                                r0,
                                c0,
                            ));
                        }
                    } else {
                        assert forall|r: int, c: int|
                            self.in_bounds(r, c) && #[trigger] self.spec_index_of(r, c)
                                < next@.len() implies self.spec_next_cell(r, c)
                            == self.spec_cell_at(r, c) by {
                            lemma_row_major_bound(w, h, r, c);
                            if self.spec_index_of(r, c) == self.spec_index_of(r0, c0) {
                                lemma_row_major_injective(w, r, c, r0, c0);
                            }
                        };
                    }
                }
                col = col + 1;
            }
            proof {
                assert((row as int + 1) * w == row as int * w + w) by (nonlinear_arith);
            }
            row = row + 1;
        }
        proof {
            assert(h * w == w * h) by (nonlinear_arith);
            assert forall|r: int, c: int| self.in_bounds(r, c) implies #[trigger] self.spec_index_of(
                r,
                c,
            ) < next@.len() by {
                lemma_row_major_bound(w, h, r, c);
            };
            if !changed {
                assert forall|r: int, c: int| self.in_bounds(r, c) implies #[trigger] self.spec_next_cell(
                    r,
                    c,
                ) == self.spec_cell_at(r, c) by {
                    lemma_row_major_bound(w, h, r, c);
                };
            }
        }
        self.cells = next;
        self.dirty = changed;
    }

    /// The current state of the cell at `(row, column)`, or
    /// `IndexOutOfBounds` when the coordinates fall outside the grid.
    pub fn try_cell_state(&self, row: u32, column: u32) -> (result: Result<Cell, GridError>)
        requires
            self.well_formed(),
        ensures
            match result {
                Ok(cell) => self.in_bounds(row as int, column as int) && cell
                    == self.spec_cell_at(row as int, column as int),
                Err(e) => e == GridError::IndexOutOfBounds && !self.in_bounds(
                    row as int,
                    column as int,
                ),
            },
    {
        if row < self.height && column < self.width {
            Ok(self.get_cell_state(row, column))
        } else {
            Err(GridError::IndexOutOfBounds)
        }
    }
}

/// One grid is the successor generation of another: same dimensions, and
/// every cell carries the state the transition rule assigns it from the
/// earlier grid.
pub open spec fn is_generation_step(pre: Universe, post: Universe) -> bool {
    &&& post.spec_width() == pre.spec_width()
    &&& post.spec_height() == pre.spec_height()
    &&& post.spec_cells().len() == pre.spec_cells().len()
    &&& forall|row: int, col: int|
        pre.in_bounds(row, col) ==> #[trigger] post.spec_cell_at(row, col) == pre.spec_next_cell(
            row,
            col,
        )
}

/// What one generation advance guarantees: the successor generation, with a
/// changed flag set exactly when some cell's state differs between the two
/// generations.
pub open spec fn advances_to(pre: Universe, post: Universe) -> bool {
    &&& is_generation_step(pre, post)
    &&& (post.spec_changed() <==> exists|row: int, col: int|
        pre.in_bounds(row, col) && #[trigger] pre.spec_next_cell(row, col) != pre.spec_cell_at(
            row,
            col,
        ))
}

/// A row-major index of an in-bounds position lies below `width * height`.
proof fn lemma_row_major_bound(width: int, height: int, row: int, col: int)
    by (nonlinear_arith)
    requires
        0 <= row < height,
        0 <= col < width,
    ensures
        0 <= row * width + col < width * height,
{
}

/// Row-major indexing is injective over in-bounds columns.
proof fn lemma_row_major_injective(width: int, row1: int, col1: int, row2: int, col2: int)
    by (nonlinear_arith)
    requires
        0 <= row1,
        0 <= row2,
        0 <= col1 < width,
        0 <= col2 < width,
        row1 * width + col1 == row2 * width + col2,
    ensures
        row1 == row2,
        col1 == col2,
{
}

} // verus!
