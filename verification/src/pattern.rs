//! The shapes that can be stamped onto a grid, as sets of coordinates.

use vstd::prelude::*;

verus! {

/// Whether the glider has a live cell `r` rows below and `c` columns to the
/// right of its top left corner. The glider fills a square of three by three:
///
/// ```text
/// . . X
/// X . X
/// . X X
/// ```
pub open spec fn glider(r: int, c: int) -> bool {
    ||| r == 0 && c == 2
    ||| r == 1 && (c == 0 || c == 2)
    ||| r == 2 && (c == 1 || c == 2)
}

/// Whether a bar of the pulsar lies on line `i` of its square: the bars lie on
/// the outer lines and on the two lines next to the middle.
pub open spec fn pulsar_bar_line(i: int) -> bool {
    i == 0 || i == 5 || i == 7 || i == 12
}

/// Whether a bar of the pulsar covers place `i` of the line it lies on: each
/// bar is three cells long, and two bars share a line.
pub open spec fn pulsar_bar_span(i: int) -> bool {
    2 <= i <= 4 || 8 <= i <= 10
}

/// Whether the pulsar has a live cell `r` rows below and `c` columns to the
/// right of its top left corner. The pulsar fills a square of thirteen by
/// thirteen with eight horizontal and eight vertical bars.
pub open spec fn pulsar(r: int, c: int) -> bool {
    ||| pulsar_bar_line(r) && pulsar_bar_span(c)
    ||| pulsar_bar_span(r) && pulsar_bar_line(c)
}

/// The cells of a glider whose top left corner is `(row, col)`.
pub open spec fn glider_at(row: int, col: int) -> Set<(int, int)> {
    Set::new(|p: (int, int)| glider(p.0 - row, p.1 - col))
}

/// The cells of a pulsar whose centre is `(row, col)`: its top left corner
/// lies six rows above and six columns to the left of it.
pub open spec fn pulsar_at(row: int, col: int) -> Set<(int, int)> {
    Set::new(|p: (int, int)| pulsar(p.0 - (row - 6), p.1 - (col - 6)))
}

/// The cells named by a list of offsets from `(top, left)`. A cell that the
/// list names twice is in the set once.
pub open spec fn listed(offsets: Seq<(u32, u32)>, top: int, left: int) -> Set<(int, int)> {
    Set::new(
        |p: (int, int)|
            exists|k: int|
                0 <= k < offsets.len() && p.0 == top + (#[trigger] offsets[k]).0 && p.1 == left
                    + offsets[k].1,
    )
}

/// Naming one more cell adds that cell to the set.
pub proof fn lemma_listed_push(offsets: Seq<(u32, u32)>, next: (u32, u32), top: int, left: int)
    ensures
        listed(offsets.push(next), top, left) == listed(offsets, top, left).insert(
            (top + next.0, left + next.1),
        ),
{
    let longer = offsets.push(next);
    assert forall|p: (int, int)|
        listed(longer, top, left).contains(p) == listed(offsets, top, left).insert(
            (top + next.0, left + next.1),
        ).contains(p) by {
        if listed(longer, top, left).contains(p) {
            let k = choose|k: int|
                0 <= k < longer.len() && p.0 == top + (#[trigger] longer[k]).0 && p.1 == left
                    + longer[k].1;
            if k < offsets.len() {
                assert(longer[k] == offsets[k]);
            }
        }
        if listed(offsets, top, left).contains(p) {
            let k = choose|k: int|
                0 <= k < offsets.len() && p.0 == top + (#[trigger] offsets[k]).0 && p.1 == left
                    + offsets[k].1;
            assert(longer[k] == offsets[k]);
        }
        if p == (top + next.0, left + next.1) {
            assert(longer[offsets.len() as int] == next);
        }
    }
    assert(listed(longer, top, left) =~= listed(offsets, top, left).insert(
        (top + next.0, left + next.1),
    ));
}

} // verus!
