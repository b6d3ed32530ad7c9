//! The executable universe: a grid held in memory, with the operations that
//! step and edit it.

use vstd::prelude::*;
use vstd::string::StringExecFns;
use crate::cell::Cell;
use crate::grid::glyph;
use crate::grid::lemma_ring;
use crate::grid::Grid;
use crate::pattern::glider_at;
use crate::pattern::lemma_listed_push;
use crate::pattern::listed;
use crate::pattern::pulsar_at;

verus! {

/// How a new universe is filled.
#[derive(Clone, Copy, Debug)]
pub enum InitMode {
    /// Every cell is dead.
    Empty,
    /// The cell at row-major position `i` is alive exactly if `i` is a
    /// multiple of 2 or of 7.
    TwoSeven,
}

impl InitMode {
    /// The state in which the cell at row-major position `i` starts.
    pub open spec fn seed(self, i: int) -> Cell {
        match self {
            InitMode::Empty => Cell::Dead,
            InitMode::TwoSeven => if i % 2 == 0 || i % 7 == 0 {
                Cell::Alive
            } else {
                Cell::Dead
            },
        }
    }

    /// The grid of the given size filled in this mode.
    pub open spec fn grid(self, width: nat, height: nat) -> Grid {
        Grid { width, height, cells: Seq::new(width * height, |i: int| self.seed(i)) }
    }
}

/// The number of columns of a new universe.
pub const DEFAULT_WIDTH: u32 = 64;

/// The number of rows of a new universe.
pub const DEFAULT_HEIGHT: u32 = 64;

/// The universe of the automaton: a grid of `width` columns and `height` rows
/// whose edges are joined, so that it forms a torus.
pub struct Universe {
    width: u32,
    height: u32,
    cells: Vec<Cell>,
}

impl View for Universe {
    type V = Grid;

    closed spec fn view(&self) -> Grid {
        Grid { width: self.width as nat, height: self.height as nat, cells: self.cells@ }
    }
}

impl Universe {
    /// The buffer holds one cell for each pair of a row and a column, and
    /// every position in it can be written as a `u32`.
    #[verifier::type_invariant]
    spec fn inv(&self) -> bool {
        &&& self.cells@.len() == self.width * self.height
        &&& self.width * self.height <= u32::MAX
    }

    /// The position of the cell `(row, col)` in the buffer.
    fn get_index(&self, row: u32, col: u32) -> (idx: usize)
        requires
            self@.contains(row as int, col as int),
        ensures
            idx == self@.index(row as int, col as int),
            idx < self@.cells.len(),
    {
        proof {
            use_type_invariant(self);
            self@.lemma_index(row as int, col as int);
            assert(0 <= row * self.width) by (nonlinear_arith);
        }
        (row * self.width + col) as usize
    }

    /// The numeric value of the cell `(row, col)`: 1 if it is alive, 0 if not.
    fn live_at(&self, row: u32, col: u32) -> (n: u8)
        requires
            self@.contains(row as int, col as int),
        ensures
            n == self@.cell(row as int, col as int).live(),
            n <= 1,
    {
        let idx = self.get_index(row, col);
        self.cells[idx].value()
    }

    /// Counts the live cells among the eight neighbours of `(row, column)`,
    /// where the row above the first is the last, the row below the last is
    /// the first, and likewise for columns.
    pub fn live_neighbor_count(&self, row: u32, column: u32) -> (count: u8)
        requires
            self@.contains(row as int, column as int),
        ensures
            count == self@.live_neighbors(row as int, column as int),
            count <= 8,
    {
        let mut count: u8 = 0;

        let north = if row == 0 {
            self.height - 1
        } else {
            row - 1
        };

        let south = if row == self.height - 1 {
            0
        } else {
            row + 1
        };

        let west = if column == 0 {
            self.width - 1
        } else {
            column - 1
        };

        let east = if column == self.width - 1 {
            0
        } else {
            column + 1
        };

        proof {
            lemma_ring(row as int, self.height as int);
            lemma_ring(column as int, self.width as int);
        }

        count += self.live_at(north, west);
        count += self.live_at(north, column);
        count += self.live_at(north, east);
        count += self.live_at(row, west);
        count += self.live_at(row, east);
        count += self.live_at(south, west);
        count += self.live_at(south, column);
        count += self.live_at(south, east);

        count
    }

    /// Advances the universe by one generation. The new generation is built
    /// in a buffer of its own from the present one, which stays untouched
    /// until every cell has been computed.
    pub fn tick(&mut self)
        ensures
            final(self)@ == old(self)@.step(),
            final(self)@.wf(),
    {
        proof {
            use_type_invariant(&*self);
        }
        let mut next = self.cells.clone();

        let mut row: u32 = 0;
        while row < self.height
            invariant
                *self == *old(self),
                self.cells@.len() == self.width * self.height,
                self.width * self.height <= u32::MAX,
                row <= self.height,
                next@.len() == self.cells@.len(),
                forall|i: int|
                    0 <= i < row * self.width ==> next@[i] == self@.next_cell(
                        self@.row_of(i),
                        self@.col_of(i),
                    ),
            decreases self.height - row,
        {
            let mut col: u32 = 0;
            while col < self.width
                invariant
                    *self == *old(self),
                    self.cells@.len() == self.width * self.height,
                    self.width * self.height <= u32::MAX,
                    row < self.height,
                    col <= self.width,
                    next@.len() == self.cells@.len(),
                    forall|i: int|
                        0 <= i < row * self.width + col ==> next@[i] == self@.next_cell(
                            self@.row_of(i),
                            self@.col_of(i),
                        ),
                decreases self.width - col,
            {
                let idx = self.get_index(row, col);
                let cell = self.cells[idx];
                let live_neighbors = self.live_neighbor_count(row, col);

                let next_cell = match (cell, live_neighbors) {
                    // A live cell with fewer than two live neighbours dies,
                    // as if by underpopulation.
                    (Cell::Alive, x) if x < 2 => Cell::Dead,
                    // A live cell with two or three live neighbours lives on.
                    (Cell::Alive, 2) | (Cell::Alive, 3) => Cell::Alive,
                    // A live cell with more than three live neighbours dies,
                    // as if by overpopulation.
                    (Cell::Alive, x) if x > 3 => Cell::Dead,
                    // A dead cell with exactly three live neighbours becomes
                    // alive, as if by reproduction.
                    (Cell::Dead, 3) => Cell::Alive,
                    // Every other cell stays as it is.
                    (otherwise, _) => otherwise,
                };

                proof {
                    self@.lemma_index(row as int, col as int);
                }
                next.set(idx, next_cell);
                col += 1;
            }
            proof {
                assert((row + 1) * self.width == row * self.width + self.width)
                    by (nonlinear_arith);
            }
            row += 1;
        }

        proof {
            assert(row * self.width == self.cells@.len()) by (nonlinear_arith)
                requires
                    row == self.height,
                    self.cells@.len() == self.width * self.height,
            ;
            assert(next@ =~= old(self)@.step().cells);
        }
        self.cells = next;
    }

    /// Makes the universe of `DEFAULT_WIDTH` columns and `DEFAULT_HEIGHT`
    /// rows, filled as `mode` says.
    pub fn new(mode: InitMode) -> (universe: Universe)
        ensures
            universe@ == mode.grid(DEFAULT_WIDTH as nat, DEFAULT_HEIGHT as nat),
            universe@.wf(),
    {
        let width: u32 = DEFAULT_WIDTH;
        let height: u32 = DEFAULT_HEIGHT;

        let cells = match mode {
            InitMode::Empty => vec![Cell::Dead; (width * height) as usize],
            InitMode::TwoSeven => {
                let mut cells: Vec<Cell> = Vec::new();
                for i in 0..width * height
                    invariant
                        mode is TwoSeven,
                        cells@.len() == i,
                        forall|j: int| 0 <= j < i ==> cells@[j] == mode.seed(j),
                {
                    if i % 2 == 0 || i % 7 == 0 {
                        cells.push(Cell::Alive);
                    } else {
                        cells.push(Cell::Dead);
                    }
                }
                cells
            },
        };

        let universe = Universe { width, height, cells };
        proof {
            assert(universe@.cells =~= mode.grid(
                DEFAULT_WIDTH as nat,
                DEFAULT_HEIGHT as nat,
            ).cells);
        }
        universe
    }

    /// Makes alive each cell that `offsets` names, counted from `(top, left)`.
    fn stamp(&mut self, top: u32, left: u32, offsets: &[(u32, u32)])
        requires
            forall|k: int|
                0 <= k < offsets@.len() ==> old(self)@.contains(
                    top + (#[trigger] offsets@[k]).0,
                    left + offsets@[k].1,
                ),
        ensures
            final(self)@ == old(self)@.with_alive(listed(offsets@, top as int, left as int)),
    {
        proof {
            use_type_invariant(&*self);
            assert(listed(offsets@.take(0), top as int, left as int) =~= Set::empty());
            assert(self@.cells =~= self@.with_alive(Set::empty()).cells);
        }
        let mut k: usize = 0;
        while k < offsets.len()
            invariant
                k <= offsets@.len(),
                self.width == old(self).width,
                self.height == old(self).height,
                self.cells@.len() == self.width * self.height,
                self.width * self.height <= u32::MAX,
                old(self)@.wf(),
                forall|k: int|
                    0 <= k < offsets@.len() ==> old(self)@.contains(
                        top + (#[trigger] offsets@[k]).0,
                        left + offsets@[k].1,
                    ),
                self@ == old(self)@.with_alive(
                    listed(offsets@.take(k as int), top as int, left as int),
                ),
            decreases offsets@.len() - k,
        {
            let (r, c) = offsets[k];
            let idx = self.get_index(top + r, left + c);
            proof {
                let done = offsets@.take(k as int);
                assert(offsets@.take(k + 1) =~= done.push(offsets@[k as int]));
                lemma_listed_push(done, offsets@[k as int], top as int, left as int);
                old(self)@.lemma_with_alive_insert(
                    listed(done, top as int, left as int),
                    top + r,
                    left + c,
                );
            }
            self.cells[idx] = Cell::Alive;
            k += 1;
        }
        proof {
            assert(offsets@.take(k as int) =~= offsets@);
        }
    }

    /// Makes alive each cell whose row and column `cells` gives, whatever it
    /// was before, and leaves every other cell as it is. Naming a cell twice
    /// does no more than naming it once.
    pub fn set_cells(&mut self, cells: &[(u32, u32)])
        requires
            forall|k: int|
                0 <= k < cells@.len() ==> old(self)@.contains(
                    (#[trigger] cells@[k]).0 as int,
                    cells@[k].1 as int,
                ),
        ensures
            final(self)@ == old(self)@.with_alive(listed(cells@, 0, 0)),
            final(self)@.wf(),
    {
        proof {
            use_type_invariant(&*self);
        }
        self.stamp(0, 0, cells);
    }

    /// Flips the cell `(row, column)` and leaves every other cell as it is.
    pub fn toggle_cell(&mut self, row: u32, column: u32)
        requires
            old(self)@.contains(row as int, column as int),
        ensures
            final(self)@ == old(self)@.toggled(row as int, column as int),
            final(self)@.wf(),
    {
        proof {
            use_type_invariant(&*self);
        }
        let idx = self.get_index(row, column);
        self.cells[idx].toggle();
    }

    /// Stamps a glider with its top left corner at `(row, column)`: its five
    /// cells become alive, and every other cell stays as it is.
    pub fn insert_glider(&mut self, row: u32, column: u32)
        requires
            old(self)@.contains(row + 2, column + 2),
        ensures
            final(self)@ == old(self)@.with_alive(glider_at(row as int, column as int)),
            final(self)@.wf(),
    {
        proof {
            use_type_invariant(&*self);
        }
        let glider: [(u32, u32); 5] = [(0, 2), (1, 0), (1, 2), (2, 1), (2, 2)];
        proof {
            assert(listed(glider@, row as int, column as int) =~= glider_at(
                row as int,
                column as int,
            ));
        }
        self.stamp(row, column, glider.as_slice());
    }

    /// Stamps a pulsar centred on `(row, column)`: its forty-eight cells
    /// become alive, and every other cell stays as it is. The pulsar reaches
    /// six cells from its centre in each direction, and all of it must lie
    /// within the grid: it is not wrapped around the edges.
    pub fn insert_pulsar(&mut self, row: u32, column: u32)
        requires
            old(self)@.contains(row - 6, column - 6),
            old(self)@.contains(row + 6, column + 6),
        ensures
            final(self)@ == old(self)@.with_alive(pulsar_at(row as int, column as int)),
            final(self)@.wf(),
    {
        proof {
            use_type_invariant(&*self);
        }
        let pulsar: [(u32, u32); 48] = [
            (0, 2), (0, 3), (0, 4), (0, 8), (0, 9), (0, 10),
            (2, 0), (2, 5), (2, 7), (2, 12),
            (3, 0), (3, 5), (3, 7), (3, 12),
            (4, 0), (4, 5), (4, 7), (4, 12),
            (5, 2), (5, 3), (5, 4), (5, 8), (5, 9), (5, 10),
            (7, 2), (7, 3), (7, 4), (7, 8), (7, 9), (7, 10),
            (8, 0), (8, 5), (8, 7), (8, 12),
            (9, 0), (9, 5), (9, 7), (9, 12),
            (10, 0), (10, 5), (10, 7), (10, 12),
            (12, 2), (12, 3), (12, 4), (12, 8), (12, 9), (12, 10),
        ];
        proof {
            assert(listed(pulsar@, row - 6, column - 6) =~= pulsar_at(row as int, column as int));
        }
        self.stamp(row - 6, column - 6, pulsar.as_slice());
    }

    /// Gives the universe `width` columns and makes every cell dead. Nothing
    /// of the former cells is kept.
    pub fn set_width(&mut self, width: u32)
        requires
            width * old(self)@.height <= u32::MAX,
        ensures
            final(self)@ == Grid::blank(width as nat, old(self)@.height),
            final(self)@.wf(),
    {
        let height = self.height;
        let cells = vec![Cell::Dead; (width * height) as usize];
        proof {
            assert(cells@ =~= Grid::blank(width as nat, height as nat).cells);
        }
        *self = Universe { width, height, cells };
    }

    /// Gives the universe `height` rows and makes every cell dead. Nothing of
    /// the former cells is kept.
    pub fn set_height(&mut self, height: u32)
        requires
            old(self)@.width * height <= u32::MAX,
        ensures
            final(self)@ == Grid::blank(old(self)@.width, height as nat),
            final(self)@.wf(),
    {
        let width = self.width;
        let cells = vec![Cell::Dead; (width * height) as usize];
        proof {
            assert(cells@ =~= Grid::blank(width as nat, height as nat).cells);
        }
        *self = Universe { width, height, cells };
    }

    /// The cells of the whole universe, row after row.
    pub fn get_cells(&self) -> (cells: &[Cell])
        ensures
            cells@ == self@.cells,
            self@.wf(),
    {
        proof {
            use_type_invariant(self);
        }
        self.cells.as_slice()
    }

    /// The universe as text: one line for each row, each with one sign for
    /// each cell of the row and ended by a line feed.
    pub fn render(&self) -> (text: String)
        ensures
            text@ == self@.rendered(),
    {
        proof {
            use_type_invariant(self);
        }
        let mut text = String::new();
        proof {
            assert(self@.lines(0) =~= Seq::<Seq<char>>::empty());
        }
        let mut row: u32 = 0;
        while row < self.height
            invariant
                self.cells@.len() == self.width * self.height,
                self.width * self.height <= u32::MAX,
                row <= self.height,
                text@ == self@.lines(row as nat).flatten(),
            decreases self.height - row,
        {
            let mut col: u32 = 0;
            while col < self.width
                invariant
                    self.cells@.len() == self.width * self.height,
                    self.width * self.height <= u32::MAX,
                    row < self.height,
                    col <= self.width,
                    text@ == self@.lines(row as nat).flatten() + self@.signs(
                        row as int,
                        col as nat,
                    ),
                decreases self.width - col,
            {
                let idx = self.get_index(row, col);
                let symbol = match self.cells[idx] {
                    Cell::Dead => "\u{25FB}",
                    Cell::Alive => "\u{25FC}",
                };
                proof {
                    reveal_strlit("\u{25FB}");
                    reveal_strlit("\u{25FC}");
                    assert(symbol@ =~= seq![glyph(self@.cell(row as int, col as int))]);
                    assert(self@.signs(row as int, (col + 1) as nat) =~= self@.signs(
                        row as int,
                        col as nat,
                    ) + symbol@);
                }
                text.append(symbol);
                col += 1;
            }
            proof {
                reveal_strlit("\n");
                assert(self@.line(row as int) =~= self@.signs(row as int, self.width as nat)
                    + "\n"@);
                assert(self@.lines((row + 1) as nat) =~= self@.lines(row as nat).push(
                    self@.line(row as int),
                ));
                self@.lines(row as nat).lemma_flatten_push(self@.line(row as int));
            }
            text.append("\n");
            row += 1;
        }
        text
    }

    /// The number of columns.
    pub fn width(&self) -> (w: u32)
        ensures
            w == self@.width,
            self@.wf(),
    {
        proof {
            use_type_invariant(self);
        }
        self.width
    }

    /// The number of rows.
    pub fn height(&self) -> (h: u32)
        ensures
            h == self@.height,
            self@.wf(),
    {
        proof {
            use_type_invariant(self);
        }
        self.height
    }
}

} // verus!
