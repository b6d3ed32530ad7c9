//! The flight of the glider: four generations carry it one row down and one
//! column to the right.

use vstd::prelude::*;
use crate::cell::Cell;
use crate::grid::lemma_ring;
use crate::grid::Grid;
use crate::laws::lemma_blank_is_all_dead;
use crate::laws::lemma_step_cell;
use crate::laws::lemma_with_alive_cell;
use crate::pattern::glider;
use crate::pattern::glider_at;

verus! {

/// Whether the glider, `k` generations after it was stamped, has a live cell
/// `r` rows below and `c` columns to the right of the corner it was stamped
/// at. After four generations it has its first shape again, one row lower
/// and one column further right.
pub open spec fn glider_phase(k: int, r: int, c: int) -> bool {
    if k == 0 {
        glider(r, c)
    } else if k == 1 {
        ||| r == 0 && c == 1
        ||| r == 1 && (c == 2 || c == 3)
        ||| r == 2 && (c == 1 || c == 2)
    } else if k == 2 {
        ||| r == 0 && c == 2
        ||| r == 1 && c == 3
        ||| r == 2 && 1 <= c <= 3
    } else if k == 3 {
        ||| r == 1 && (c == 1 || c == 3)
        ||| r == 2 && (c == 2 || c == 3)
        ||| r == 3 && c == 2
    } else {
        glider(r - 1, c - 1)
    }
}

/// Whether the live cells of `g` are exactly those of a glider stamped at
/// `(row, col)` and `k` generations old.
pub open spec fn shows_glider(g: Grid, k: int, row: int, col: int) -> bool {
    forall|r: int, c: int|
        g.contains(r, c) ==> (#[trigger] g.cell(r, c) == Cell::Alive <==> glider_phase(
            k,
            r - row,
            c - col,
        ))
}

/// Whether a glider stamped at `(row, col)` has room to fly for four
/// generations without meeting itself round the torus or the edge of the
/// grid.
pub open spec fn glider_has_room(g: Grid, row: int, col: int) -> bool {
    &&& g.height >= 5
    &&& g.width >= 5
    &&& g.contains(row, col)
    &&& g.contains(row + 3, col + 3)
}

/// One generation takes a glider alone on the grid from each of its shapes
/// to the next.
pub proof fn lemma_glider_ages(g: Grid, k: int, row: int, col: int)
    requires
        g.wf(),
        glider_has_room(g, row, col),
        0 <= k < 4,
        shows_glider(g, k, row, col),
    ensures
        g.step().wf(),
        g.step().width == g.width,
        g.step().height == g.height,
        shows_glider(g.step(), k + 1, row, col),
{
    let h = g.height as int;
    let w = g.width as int;
    let next = g.step();
    assert forall|r: int, c: int| next.contains(r, c) implies (#[trigger] next.cell(r, c)
        == Cell::Alive <==> glider_phase(k + 1, r - row, c - col)) by {
        lemma_step_cell(g, r, c);
        lemma_ring(r, h);
        lemma_ring(c, w);
        let north = if r == 0 { h - 1 } else { r - 1 };
        let south = if r == h - 1 { 0 } else { r + 1 };
        let west = if c == 0 { w - 1 } else { c - 1 };
        let east = if c == w - 1 { 0 } else { c + 1 };
        assert(g.torus_cell(r - 1, c - 1) == g.cell(north, west));
        assert(g.torus_cell(r - 1, c) == g.cell(north, c));
        assert(g.torus_cell(r - 1, c + 1) == g.cell(north, east));
        assert(g.torus_cell(r, c - 1) == g.cell(r, west));
        assert(g.torus_cell(r, c + 1) == g.cell(r, east));
        assert(g.torus_cell(r + 1, c - 1) == g.cell(south, west));
        assert(g.torus_cell(r + 1, c) == g.cell(south, c));
        assert(g.torus_cell(r + 1, c + 1) == g.cell(south, east));
    }
    assert(next.cells.len() == g.cells.len());
}

/// Two grids of one size with the same live cells are the same grid.
proof fn lemma_same_glider(a: Grid, b: Grid, k: int, row: int, col: int)
    requires
        a.wf(),
        b.wf(),
        a.width == b.width,
        a.height == b.height,
        shows_glider(a, k, row, col),
        shows_glider(b, k, row, col),
    ensures
        a == b,
{
    assert forall|i: int| 0 <= i < a.cells.len() implies a.cells[i] == b.cells[i] by {
        a.lemma_coordinates(i);
        let r = a.row_of(i);
        let c = a.col_of(i);
        assert(a.cell(r, c) == a.cells[i]);
        assert(b.cell(r, c) == b.cells[i]);
    }
    assert(a.cells =~= b.cells);
}

/// A glider stamped on a blank grid shows its first shape.
proof fn lemma_stamped_glider(width: nat, height: nat, row: int, col: int)
    ensures
        Grid::blank(width, height).with_alive(glider_at(row, col)).wf(),
        forall|r: int, c: int|
            Grid::blank(width, height).contains(r, c) ==> (#[trigger] Grid::blank(
                width,
                height,
            ).with_alive(glider_at(row, col)).cell(r, c) == Cell::Alive <==> glider(
                r - row,
                c - col,
            )),
{
    let blank = Grid::blank(width, height);
    let g = blank.with_alive(glider_at(row, col));
    lemma_blank_is_all_dead(width, height);
    assert forall|r: int, c: int| blank.contains(r, c) implies (#[trigger] g.cell(r, c)
        == Cell::Alive <==> glider(r - row, c - col)) by {
        lemma_with_alive_cell(blank, glider_at(row, col), r, c);
        assert(blank.cell(r, c) == Cell::Dead);
    }
}

/// A glider alone on a torus of at least five rows and five columns is,
/// after four generations, the same glider one row lower and one column
/// further right.
pub proof fn lemma_glider_flies(width: nat, height: nat, row: int, col: int)
    requires
        glider_has_room(Grid::blank(width, height), row, col),
    ensures
        Grid::blank(width, height).with_alive(glider_at(row, col)).steps(4) == Grid::blank(
            width,
            height,
        ).with_alive(glider_at(row + 1, col + 1)),
{
    let blank = Grid::blank(width, height);
    let g0 = blank.with_alive(glider_at(row, col));
    lemma_stamped_glider(width, height, row, col);
    assert(shows_glider(g0, 0, row, col));
    let g1 = g0.step();
    lemma_glider_ages(g0, 0, row, col);
    let g2 = g1.step();
    lemma_glider_ages(g1, 1, row, col);
    let g3 = g2.step();
    lemma_glider_ages(g2, 2, row, col);
    let g4 = g3.step();
    lemma_glider_ages(g3, 3, row, col);
    assert(g0.steps(4) == g4) by {
        reveal_with_fuel(Grid::steps, 5);
    }
    let landed = blank.with_alive(glider_at(row + 1, col + 1));
    lemma_stamped_glider(width, height, row + 1, col + 1);
    assert(shows_glider(landed, 4, row, col));
    lemma_same_glider(g4, landed, 4, row, col);
}

} // verus!
