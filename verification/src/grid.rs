//! The play field as a flat sequence of cells, row-major, with the
//! counting lemmas behind the growth invariant and food placement.

use crate::cell::Cell;
use crate::position::Position;
use vstd::prelude::*;

verus! {

/// Whether `p` lies on a grid of `rows` rows and `cols` columns.
pub open spec fn in_bounds(p: Position, rows: int, cols: int) -> bool {
    p.x < rows && p.y < cols
}

/// The row-major index of `p` on a grid of `cols` columns.
pub open spec fn pos_index(p: Position, cols: int) -> int {
    p.x * cols + p.y
}

/// How many cells of `g` hold a snake segment.
pub open spec fn count_body(g: Seq<Cell>) -> nat
    decreases g.len(),
{
    if g.len() == 0 {
        0
    } else {
        count_body(g.drop_last()) + if g.last() == Cell::Body {
            1nat
        } else {
            0nat
        }
    }
}

/// A row-major index is within the grid.
pub proof fn lemma_pos_index_bounds(p: Position, rows: int, cols: int)
    by (nonlinear_arith)
    requires
        in_bounds(p, rows, cols),
        0 < cols,
    ensures
        0 <= pos_index(p, cols) < rows * cols,
{
}

/// Distinct in-bounds positions have distinct row-major indices.
pub proof fn lemma_pos_index_injective(p: Position, q: Position, rows: int, cols: int)
    by (nonlinear_arith)
    requires
        in_bounds(p, rows, cols),
        in_bounds(q, rows, cols),
        0 < cols,
        pos_index(p, cols) == pos_index(q, cols),
    ensures
        p == q,
{
    assert(p.x == q.x && p.y == q.y);
}

/// Updating one cell changes the body count by exactly the difference the
/// cell itself contributes.
pub proof fn lemma_count_body_update(g: Seq<Cell>, j: int, c: Cell)
    requires
        0 <= j < g.len(),
    ensures
        count_body(g.update(j, c)) + (if g[j] == Cell::Body {
            1int
        } else {
            0int
        }) == count_body(g) + (if c == Cell::Body {
            1int
        } else {
            0int
        }),
    decreases g.len(),
{
    let gu = g.update(j, c);
    if j == g.len() - 1 {
        assert(gu.drop_last() =~= g.drop_last());
    } else {
        assert(gu.drop_last() =~= g.drop_last().update(j, c));
        lemma_count_body_update(g.drop_last(), j, c);
    }
}

/// No sequence holds more body cells than cells.
pub proof fn lemma_count_body_le(g: Seq<Cell>)
    ensures
        count_body(g) <= g.len(),
    decreases g.len(),
{
    if g.len() > 0 {
        lemma_count_body_le(g.drop_last());
    }
}

/// A cell holding something else strictly lowers the possible body count.
pub proof fn lemma_count_body_lt(g: Seq<Cell>, j: int)
    requires
        0 <= j < g.len(),
        g[j] != Cell::Body,
    ensures
        count_body(g) < g.len(),
    decreases g.len(),
{
    if j == g.len() - 1 {
        lemma_count_body_le(g.drop_last());
    } else {
        lemma_count_body_lt(g.drop_last(), j);
    }
}

/// If not every cell is a body cell, some cell is not.
pub proof fn lemma_count_body_partial_has_other(g: Seq<Cell>)
    requires
        count_body(g) < g.len(),
    ensures
        exists|j: int| 0 <= j < g.len() && g[j] != Cell::Body,
    decreases g.len(),
{
    if g.last() != Cell::Body {
        assert(g[g.len() - 1] != Cell::Body);
    } else {
        lemma_count_body_partial_has_other(g.drop_last());
        let j = choose|j: int| 0 <= j < g.drop_last().len() && g.drop_last()[j] != Cell::Body;
        assert(g[j] != Cell::Body);
    }
}

/// A sequence without body cells counts zero.
pub proof fn lemma_count_body_zero(g: Seq<Cell>)
    requires
        forall|j: int| 0 <= j < g.len() ==> g[j] != Cell::Body,
    ensures
        count_body(g) == 0,
    decreases g.len(),
{
    if g.len() > 0 {
        lemma_count_body_zero(g.drop_last());
    }
}

} // verus!
