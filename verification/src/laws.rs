//! What holds of the model whatever the grid: the laws that the operations
//! of the universe obey, each proved from the definitions.

use vstd::prelude::*;
use vstd::arithmetic::div_mod::lemma_mod_multiples_vanish;
use crate::cell::Cell;
use crate::grid::lemma_ring;
use crate::grid::Grid;
use crate::universe::InitMode;

verus! {

/// A grid filled in the mode `Empty` has one cell for each pair of a row and
/// a column, and every one of them is dead.
pub proof fn lemma_empty_is_all_dead(width: nat, height: nat)
    ensures
        InitMode::Empty.grid(width, height).wf(),
        InitMode::Empty.grid(width, height).cells.len() == width * height,
        forall|i: int|
            0 <= i < width * height ==> #[trigger] InitMode::Empty.grid(width, height).cells[i]
                == Cell::Dead,
        InitMode::Empty.grid(width, height) == Grid::blank(width, height),
{
    assert(InitMode::Empty.grid(width, height).cells =~= Grid::blank(width, height).cells);
}

/// In a grid filled in the mode `TwoSeven`, the cell at row-major position
/// `i` is alive exactly if `i` is a multiple of 2 or of 7.
pub proof fn lemma_two_seven(width: nat, height: nat)
    ensures
        InitMode::TwoSeven.grid(width, height).wf(),
        forall|i: int|
            0 <= i < width * height ==> ((#[trigger] InitMode::TwoSeven.grid(
                width,
                height,
            ).cells[i]) == Cell::Alive <==> (i % 2 == 0 || i % 7 == 0)),
{
}

/// A blank grid has one cell for each pair of a row and a column, and every
/// one of them is dead.
pub proof fn lemma_blank_is_all_dead(width: nat, height: nat)
    ensures
        Grid::blank(width, height).wf(),
        Grid::blank(width, height).cells.len() == width * height,
        forall|row: int, col: int|
            Grid::blank(width, height).contains(row, col) ==> #[trigger] Grid::blank(
                width,
                height,
            ).cell(row, col) == Cell::Dead,
{
    let g = Grid::blank(width, height);
    assert forall|row: int, col: int| g.contains(row, col) implies #[trigger] g.cell(row, col)
        == Cell::Dead by {
        g.lemma_index(row, col);
    }
}

/// Flipping the same cell twice gives back the grid as it was.
pub proof fn lemma_toggle_twice(g: Grid, row: int, col: int)
    requires
        g.wf(),
        g.contains(row, col),
    ensures
        g.toggled(row, col).toggled(row, col) == g,
{
    g.lemma_index(row, col);
    assert(g.toggled(row, col).toggled(row, col).cells =~= g.cells);
}

/// Flipping a cell changes that cell to its opposite and no other cell.
pub proof fn lemma_toggled_cell(g: Grid, row: int, col: int, r: int, c: int)
    requires
        g.wf(),
        g.contains(row, col),
        g.contains(r, c),
    ensures
        g.toggled(row, col).wf(),
        g.toggled(row, col).cell(r, c) == (if r == row && c == col {
            g.cell(r, c).toggled()
        } else {
            g.cell(r, c)
        }),
{
    g.lemma_index(row, col);
    g.lemma_index(r, c);
}

/// Marking cells alive changes exactly the marked cells, read by row and
/// column.
pub proof fn lemma_with_alive_cell(g: Grid, marked: Set<(int, int)>, row: int, col: int)
    requires
        g.wf(),
        g.contains(row, col),
    ensures
        g.with_alive(marked).wf(),
        g.with_alive(marked).cell(row, col) == (if marked.contains((row, col)) {
            Cell::Alive
        } else {
            g.cell(row, col)
        }),
{
    g.lemma_index(row, col);
}

/// Marking the same cells a second time changes nothing.
pub proof fn lemma_with_alive_twice(g: Grid, marked: Set<(int, int)>)
    requires
        g.wf(),
    ensures
        g.with_alive(marked).with_alive(marked) == g.with_alive(marked),
{
    assert(g.with_alive(marked).with_alive(marked).cells =~= g.with_alive(marked).cells);
}

/// A generation keeps the size of the grid, and each cell of the next
/// generation is what the rule makes of that cell and its live neighbours in
/// the present one.
pub proof fn lemma_step_cell(g: Grid, row: int, col: int)
    requires
        g.wf(),
        g.contains(row, col),
    ensures
        g.step().wf(),
        g.step().width == g.width,
        g.step().height == g.height,
        g.step().cell(row, col) == g.cell(row, col).next(g.live_neighbors(row, col)),
{
    g.lemma_index(row, col);
}

/// The rule, case by case: a live cell with fewer than two live neighbours
/// dies, one with two or three lives on, one with more than three dies; a
/// dead cell with exactly three live neighbours becomes alive, and any other
/// dead cell stays dead.
pub proof fn lemma_rule(cell: Cell, live_neighbors: int)
    ensures
        cell == Cell::Alive && live_neighbors < 2 ==> cell.next(live_neighbors) == Cell::Dead,
        cell == Cell::Alive && (live_neighbors == 2 || live_neighbors == 3) ==> cell.next(
            live_neighbors,
        ) == Cell::Alive,
        cell == Cell::Alive && live_neighbors > 3 ==> cell.next(live_neighbors) == Cell::Dead,
        cell == Cell::Dead && live_neighbors == 3 ==> cell.next(live_neighbors) == Cell::Alive,
        cell == Cell::Dead && live_neighbors != 3 ==> cell.next(live_neighbors) == Cell::Dead,
{
}

/// A live cell none of whose neighbours is alive is dead one generation
/// later.
pub proof fn lemma_lonely_cell_dies(g: Grid, row: int, col: int)
    requires
        g.wf(),
        g.contains(row, col),
        g.live_neighbors(row, col) == 0,
    ensures
        g.step().cell(row, col) == Cell::Dead,
{
    lemma_step_cell(g, row, col);
}

/// The grid is a torus: a cell of the grid is found at its own row and
/// column, and going all the way round in either direction, forwards or
/// backwards, leads back to the same cell.
pub proof fn lemma_torus(g: Grid, row: int, col: int)
    requires
        g.height > 0,
        g.width > 0,
    ensures
        g.contains(row, col) ==> g.torus_cell(row, col) == g.cell(row, col),
        g.torus_cell(row + g.height, col) == g.torus_cell(row, col),
        g.torus_cell(row - g.height, col) == g.torus_cell(row, col),
        g.torus_cell(row, col + g.width) == g.torus_cell(row, col),
        g.torus_cell(row, col - g.width) == g.torus_cell(row, col),
{
    let h = g.height as int;
    let w = g.width as int;
    if g.contains(row, col) {
        lemma_ring(row, h);
        lemma_ring(col, w);
    }
    lemma_mod_multiples_vanish(1, row, h);
    lemma_mod_multiples_vanish(-1, row, h);
    lemma_mod_multiples_vanish(1, col, w);
    lemma_mod_multiples_vanish(-1, col, w);
}

/// The neighbours of the cell in the first row and first column are the
/// cells of the last, first and second row in the last, first and second
/// column, but for that cell itself.
pub proof fn lemma_corner_neighbors(g: Grid)
    requires
        g.wf(),
        g.height >= 2,
        g.width >= 2,
    ensures
        g.live_neighbors(0, 0) == g.cell(g.height - 1, g.width - 1).live() + g.cell(
            g.height - 1,
            0,
        ).live() + g.cell(g.height - 1, 1).live() + g.cell(0, g.width - 1).live() + g.cell(
            0,
            1,
        ).live() + g.cell(1, g.width - 1).live() + g.cell(1, 0).live() + g.cell(1, 1).live(),
{
    lemma_ring(0, g.height as int);
    lemma_ring(0, g.width as int);
}

/// Whether the live cells of `g` are exactly the four cells of the square of
/// two by two whose top left corner is `(row, col)`.
pub open spec fn is_block(g: Grid, row: int, col: int) -> bool {
    &&& g.contains(row, col)
    &&& g.contains(row + 1, col + 1)
    &&& forall|r: int, c: int|
        g.contains(r, c) ==> (#[trigger] g.cell(r, c) == Cell::Alive <==> (row <= r <= row + 1
            && col <= c <= col + 1))
}

/// A block on a torus of at least three rows and three columns is a still
/// life: the next generation is the same grid.
pub proof fn lemma_block_is_still(g: Grid, row: int, col: int)
    requires
        g.wf(),
        g.height >= 3,
        g.width >= 3,
        is_block(g, row, col),
    ensures
        g.step() == g,
{
    let h = g.height as int;
    let w = g.width as int;
    assert forall|i: int| 0 <= i < g.cells.len() implies g.step().cells[i] == g.cells[i] by {
        g.lemma_coordinates(i);
        let r = g.row_of(i);
        let c = g.col_of(i);
        lemma_ring(r, h);
        lemma_ring(c, w);
        let north = if r == 0 { h - 1 } else { r - 1 };
        let south = if r == h - 1 { 0 } else { r + 1 };
        let west = if c == 0 { w - 1 } else { c - 1 };
        let east = if c == w - 1 { 0 } else { c + 1 };
        assert(g.torus_cell(r - 1, c - 1) == g.cell(north, west));
        assert(g.torus_cell(r - 1, c) == g.cell(north, c));
        assert(g.torus_cell(r - 1, c + 1) == g.cell(north, east));
        assert(g.torus_cell(r, c - 1) == g.cell(r, west));
        assert(g.torus_cell(r, c + 1) == g.cell(r, east));
        assert(g.torus_cell(r + 1, c - 1) == g.cell(south, west));
        assert(g.torus_cell(r + 1, c) == g.cell(south, c));
        assert(g.torus_cell(r + 1, c + 1) == g.cell(south, east));
        assert(g.cell(r, c) == g.cells[i]);
    }
    assert(g.step().cells =~= g.cells);
}

/// A block stays as it is for any number of generations.
pub proof fn lemma_block_stays(g: Grid, row: int, col: int, n: nat)
    requires
        g.wf(),
        g.height >= 3,
        g.width >= 3,
        is_block(g, row, col),
    ensures
        g.steps(n) == g,
    decreases n,
{
    if n > 0 {
        lemma_block_is_still(g, row, col);
        lemma_block_stays(g, row, col, (n - 1) as nat);
    }
}

/// The text of the first `n` rows is `n` lines long, and each line holds one
/// sign for each column and the end of the line.
pub proof fn lemma_lines_len(g: Grid, n: nat)
    ensures
        g.lines(n).flatten().len() == n * (g.width + 1),
    decreases n,
{
    if n == 0 {
        assert(g.lines(0) =~= Seq::<Seq<char>>::empty());
    } else {
        let before = (n - 1) as nat;
        lemma_lines_len(g, before);
        assert(g.lines(n) =~= g.lines(before).push(g.line(before as int)));
        g.lines(before).lemma_flatten_push(g.line(before as int));
        assert(n * (g.width + 1) == before * (g.width + 1) + (g.width + 1)) by (nonlinear_arith)
            requires
                n == before + 1,
        ;
    }
}

/// The text of a grid has as many characters as the grid has rows times one
/// more than it has columns.
pub proof fn lemma_rendered_len(g: Grid)
    ensures
        g.rendered().len() == g.height * (g.width + 1),
{
    lemma_lines_len(g, g.height);
}

} // verus!
