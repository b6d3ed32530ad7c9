//! The mathematical model of the automaton: a grid of cells on a torus.
//!
//! Nothing here is compiled. The executable `Universe` is described
//! by the `Grid` it stands for, and each of its operations by a function of
//! this module.

use vstd::prelude::*;
use vstd::arithmetic::div_mod::lemma_fundamental_div_mod;
use vstd::arithmetic::div_mod::lemma_fundamental_div_mod_converse;
use vstd::arithmetic::div_mod::lemma_mod_pos_bound;
use crate::cell::Cell;

verus! {

/// A grid as a mathematical value: its dimensions and its cells in row-major
/// order.
pub struct Grid {
    pub width: nat,
    pub height: nat,
    pub cells: Seq<Cell>,
}

/// The sign that stands for a cell in the text of a grid: a white square for
/// a dead cell, a black one for a live cell.
pub open spec fn glyph(cell: Cell) -> char {
    match cell {
        Cell::Dead => '\u{25FB}',
        Cell::Alive => '\u{25FC}',
    }
}

/// On a ring of `n` places, the place before the first is the last and the
/// place after the last is the first; any other place has its neighbours
/// beside it.
pub proof fn lemma_ring(i: int, n: int)
    requires
        0 <= i < n,
    ensures
        (i - 1) % n == (if i == 0 { n - 1 } else { i - 1 }),
        i % n == i,
        (i + 1) % n == (if i == n - 1 { 0 } else { i + 1 }),
{
    if i == 0 {
        lemma_fundamental_div_mod_converse(i - 1, n, -1, n - 1);
    } else {
        lemma_fundamental_div_mod_converse(i - 1, n, 0, i - 1);
    }
    lemma_fundamental_div_mod_converse(i, n, 0, i);
    if i == n - 1 {
        lemma_fundamental_div_mod_converse(i + 1, n, 1, 0);
    } else {
        lemma_fundamental_div_mod_converse(i + 1, n, 0, i + 1);
    }
}

impl Grid {
    /// There is exactly one cell for each pair of a row and a column.
    pub open spec fn wf(self) -> bool {
        self.cells.len() == self.width * self.height
    }

    /// Whether `(row, col)` names a cell of the grid.
    pub open spec fn contains(self, row: int, col: int) -> bool {
        0 <= row < self.height && 0 <= col < self.width
    }

    /// The position of the cell `(row, col)` in the row-major sequence.
    pub open spec fn index(self, row: int, col: int) -> int {
        row * self.width + col
    }

    /// The row of the cell at position `i`.
    pub open spec fn row_of(self, i: int) -> int {
        i / (self.width as int)
    }

    /// The column of the cell at position `i`.
    pub open spec fn col_of(self, i: int) -> int {
        i % (self.width as int)
    }

    /// The cell at `(row, col)`.
    pub open spec fn cell(self, row: int, col: int) -> Cell {
        self.cells[self.index(row, col)]
    }

    /// The cell reached at `(row, col)` when the grid has no edges: a
    /// coordinate that runs off one side comes back in on the other.
    pub open spec fn torus_cell(self, row: int, col: int) -> Cell {
        self.cell(row % (self.height as int), col % (self.width as int))
    }

    /// How many of the eight cells around `(row, col)` on the torus are alive.
    pub open spec fn live_neighbors(self, row: int, col: int) -> int {
        self.torus_cell(row - 1, col - 1).live() + self.torus_cell(row - 1, col).live()
            + self.torus_cell(row - 1, col + 1).live() + self.torus_cell(row, col - 1).live()
            + self.torus_cell(row, col + 1).live() + self.torus_cell(row + 1, col - 1).live()
            + self.torus_cell(row + 1, col).live() + self.torus_cell(row + 1, col + 1).live()
    }

    /// The state of the cell `(row, col)` one generation later.
    pub open spec fn next_cell(self, row: int, col: int) -> Cell {
        self.cell(row, col).next(self.live_neighbors(row, col))
    }

    /// The next generation: every cell is replaced at once, each judged by
    /// its neighbours in the present generation.
    pub open spec fn step(self) -> Grid {
        Grid {
            width: self.width,
            height: self.height,
            cells: Seq::new(
                self.cells.len(),
                |i: int| self.next_cell(self.row_of(i), self.col_of(i)),
            ),
        }
    }

    /// The grid `n` generations later.
    pub open spec fn steps(self, n: nat) -> Grid
        decreases n,
    {
        if n == 0 {
            self
        } else {
            self.step().steps((n - 1) as nat)
        }
    }

    /// The grid with every cell whose coordinates are in `marked` made alive
    /// and every other cell left as it is.
    pub open spec fn with_alive(self, marked: Set<(int, int)>) -> Grid {
        Grid {
            width: self.width,
            height: self.height,
            cells: Seq::new(
                self.cells.len(),
                |i: int|
                    if marked.contains((self.row_of(i), self.col_of(i))) {
                        Cell::Alive
                    } else {
                        self.cells[i]
                    },
            ),
        }
    }

    /// The grid with the one cell `(row, col)` flipped.
    pub open spec fn toggled(self, row: int, col: int) -> Grid {
        Grid {
            width: self.width,
            height: self.height,
            cells: self.cells.update(self.index(row, col), self.cell(row, col).toggled()),
        }
    }

    /// The grid of the given size in which every cell is dead.
    pub open spec fn blank(width: nat, height: nat) -> Grid {
        Grid { width, height, cells: Seq::new(width * height, |i: int| Cell::Dead) }
    }

    /// The signs of the first `n` cells of row `row`.
    pub open spec fn signs(self, row: int, n: nat) -> Seq<char> {
        Seq::new(n, |col: int| glyph(self.cell(row, col)))
    }

    /// The line of text for row `row`: one sign for each cell, then the end
    /// of the line.
    pub open spec fn line(self, row: int) -> Seq<char> {
        self.signs(row, self.width).push('\n')
    }

    /// The lines of the first `n` rows.
    pub open spec fn lines(self, n: nat) -> Seq<Seq<char>> {
        Seq::new(n, |row: int| self.line(row))
    }

    /// The text of the grid: the lines of all its rows, from the first to
    /// the last, one after the other.
    pub open spec fn rendered(self) -> Seq<char> {
        self.lines(self.height).flatten()
    }

    /// The row-major position of a cell of the grid lies within the sequence
    /// of cells, and row and column are recovered from it by division.
    pub proof fn lemma_index(self, row: int, col: int)
        requires
            self.wf(),
            self.contains(row, col),
        ensures
            0 <= self.index(row, col) < self.cells.len(),
            self.row_of(self.index(row, col)) == row,
            self.col_of(self.index(row, col)) == col,
    {
        let w = self.width as int;
        let h = self.height as int;
        assert(0 <= row * w && row * w + w <= w * h) by (nonlinear_arith)
            requires
                0 <= row < h,
                0 < w,
        ;
        lemma_fundamental_div_mod_converse(self.index(row, col), w, row, col);
    }

    /// Marking one more cell makes that cell alive and changes no other.
    pub proof fn lemma_with_alive_insert(self, marked: Set<(int, int)>, row: int, col: int)
        requires
            self.wf(),
            self.contains(row, col),
        ensures
            self.with_alive(marked.insert((row, col))).cells == self.with_alive(
                marked,
            ).cells.update(self.index(row, col), Cell::Alive),
    {
        let more = self.with_alive(marked.insert((row, col))).cells;
        let one = self.with_alive(marked).cells.update(self.index(row, col), Cell::Alive);
        self.lemma_index(row, col);
        assert forall|i: int| 0 <= i < more.len() implies more[i] == one[i] by {
            self.lemma_coordinates(i);
        }
        assert(more =~= one);
    }

    /// Every position in the sequence of cells is the row-major position of
    /// exactly the cell whose row and column division gives.
    pub proof fn lemma_coordinates(self, i: int)
        requires
            self.wf(),
            0 <= i < self.cells.len(),
        ensures
            self.contains(self.row_of(i), self.col_of(i)),
            self.index(self.row_of(i), self.col_of(i)) == i,
    {
        let w = self.width as int;
        let h = self.height as int;
        assert(w > 0) by (nonlinear_arith)
            requires
                0 <= i < w * h,
                0 <= w,
        ;
        lemma_fundamental_div_mod(i, w);
        lemma_mod_pos_bound(i, w);
        let q = i / w;
        let r = i % w;
        assert(w * q == q * w) by (nonlinear_arith);
        assert(0 <= q < h) by (nonlinear_arith)
            requires
                0 <= i < w * h,
                i == q * w + r,
                0 <= r < w,
        ;
    }
}

} // verus!
