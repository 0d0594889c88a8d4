//! The board as a mathematical grid: what a cell holds, which cells are
//! free, and who has completed a line.

use crate::update::{GameCell, Position};
use vstd::prelude::*;

verus! {

/// Three rows of three cells each.
pub open spec fn grid_wf(g: Seq<Seq<GameCell>>) -> bool {
    g.len() == 3 && forall|i: int| 0 <= i < 3 ==> #[trigger] g[i].len() == 3
}

/// The cell at `p`, if `p` lies on the grid.
pub open spec fn cell_at(g: Seq<Seq<GameCell>>, p: Position) -> Option<GameCell> {
    if p.y < g.len() && p.x < g[p.y as int].len() {
        Some(g[p.y as int][p.x as int])
    } else {
        None
    }
}

/// The grid with the cell at `p` replaced by `c`.
pub open spec fn set_at(g: Seq<Seq<GameCell>>, p: Position, c: GameCell) -> Seq<Seq<GameCell>> {
    g.update(p.y as int, g[p.y as int].update(p.x as int, c))
}

/// The free cells among the first `x` cells of row `y`, left to right.
pub open spec fn row_empties(r: Seq<GameCell>, y: int, x: int) -> Seq<Position>
    decreases x,
{
    if x <= 0 {
        seq![]
    } else {
        let prev = row_empties(r, y, x - 1);
        if r[x - 1] == GameCell::Empty {
            prev.push(Position { x: (x - 1) as usize, y: y as usize })
        } else {
            prev
        }
    }
}

/// The free cells of the first `y` rows, row by row.
pub open spec fn empties(g: Seq<Seq<GameCell>>, y: int) -> Seq<Position>
    decreases y,
{
    if y <= 0 {
        seq![]
    } else {
        empties(g, y - 1) + row_empties(g[y - 1], y - 1, 3)
    }
}

/// Every free cell of the board, in reading order.
pub open spec fn available(g: Seq<Seq<GameCell>>) -> Seq<Position> {
    empties(g, 3)
}

/// How many of the first `x` cells of a row hold a mark.
pub open spec fn row_filled(r: Seq<GameCell>, x: int) -> nat
    decreases x,
{
    if x <= 0 {
        0
    } else {
        row_filled(r, x - 1) + if r[x - 1] != GameCell::Empty { 1nat } else { 0nat }
    }
}

/// How many cells of the first `y` rows hold a mark.
pub open spec fn filled(g: Seq<Seq<GameCell>>, y: int) -> nat
    decreases y,
{
    if y <= 0 {
        0
    } else {
        filled(g, y - 1) + row_filled(g[y - 1], 3)
    }
}

/// The mark that fills a whole line, if one does.
pub open spec fn line(a: GameCell, b: GameCell, c: GameCell) -> Option<GameCell> {
    if a == b && b == c && a != GameCell::Empty {
        Some(a)
    } else {
        None
    }
}

/// The marks that are present, in order.
pub open spec fn present(a: Option<GameCell>, b: Option<GameCell>, c: Option<GameCell>) -> Seq<
    GameCell,
> {
    let s0 = if let Some(v) = a { seq![v] } else { seq![] };
    let s1 = if let Some(v) = b { seq![v] } else { seq![] };
    let s2 = if let Some(v) = c { seq![v] } else { seq![] };
    s0 + s1 + s2
}

/// The marks that fill a row, top to bottom.
pub open spec fn row_lines(g: Seq<Seq<GameCell>>) -> Seq<GameCell> {
    present(
        line(g[0][0], g[0][1], g[0][2]),
        line(g[1][0], g[1][1], g[1][2]),
        line(g[2][0], g[2][1], g[2][2]),
    )
}

/// The marks that fill a column, left to right.
pub open spec fn col_lines(g: Seq<Seq<GameCell>>) -> Seq<GameCell> {
    present(
        line(g[0][0], g[1][0], g[2][0]),
        line(g[0][1], g[1][1], g[2][1]),
        line(g[0][2], g[1][2], g[2][2]),
    )
}

/// The free and the marked cells among the first `x` of a row are `x` in all.
pub proof fn lemma_row_empties_len(r: Seq<GameCell>, y: int, x: int)
    requires
        0 <= x <= r.len(),
    ensures
        row_empties(r, y, x).len() + row_filled(r, x) == x,
    decreases x,
{
    if x > 0 {
        lemma_row_empties_len(r, y, x - 1);
    }
}

/// Every position listed as free lies in its row and holds no mark.
pub proof fn lemma_row_empties_free(r: Seq<GameCell>, y: int, x: int)
    requires
        0 <= x <= r.len(),
        x <= 3,
        0 <= y < 3,
    ensures
        forall|k: int|
            #![trigger row_empties(r, y, x)[k]]
            0 <= k < row_empties(r, y, x).len() ==> row_empties(r, y, x)[k].y == y
                && row_empties(r, y, x)[k].x < x && r[row_empties(r, y, x)[k].x as int]
                == GameCell::Empty,
    decreases x,
{
    if x > 0 {
        lemma_row_empties_free(r, y, x - 1);
        let prev = row_empties(r, y, x - 1);
        let cur = row_empties(r, y, x);
        assert forall|k: int| 0 <= k < cur.len() implies #[trigger] cur[k].y == y && cur[k].x < x
            && r[cur[k].x as int] == GameCell::Empty by {
            if k < prev.len() {
                assert(cur[k] == prev[k]);
            }
        }
    }
}

/// Every position listed as free is a free cell of the grid.
pub proof fn lemma_available_free(g: Seq<Seq<GameCell>>)
    requires
        grid_wf(g),
    ensures
        forall|k: int|
            0 <= k < available(g).len() ==> cell_at(g, #[trigger] available(g)[k]) == Some(
                GameCell::Empty,
            ),
{
    lemma_row_empties_free(g[0], 0, 3);
    lemma_row_empties_free(g[1], 1, 3);
    lemma_row_empties_free(g[2], 2, 3);
    reveal_with_fuel(empties, 4);
    let a = row_empties(g[0], 0, 3);
    let b = row_empties(g[1], 1, 3);
    let c = row_empties(g[2], 2, 3);
    assert(available(g) =~= a + b + c);
    assert forall|k: int| 0 <= k < available(g).len() implies cell_at(
        g,
        #[trigger] available(g)[k],
    ) == Some(GameCell::Empty) by {
        if k < a.len() {
            assert(available(g)[k] == a[k]);
        } else if k < a.len() + b.len() {
            assert(available(g)[k] == b[k - a.len()]);
        } else {
            assert(available(g)[k] == c[k - a.len() - b.len()]);
        }
    }
}

/// The number of free cells plus the number of marks is nine.
pub proof fn lemma_available_len(g: Seq<Seq<GameCell>>)
    requires
        grid_wf(g),
    ensures
        available(g).len() + filled(g, 3) == 9,
{
    lemma_row_empties_len(g[0], 0, 3);
    lemma_row_empties_len(g[1], 1, 3);
    lemma_row_empties_len(g[2], 2, 3);
    reveal_with_fuel(empties, 4);
    reveal_with_fuel(filled, 4);
}

/// Marking one cell of a row adds one mark to the row.
pub proof fn lemma_row_filled_set(r: Seq<GameCell>, j: int, c: GameCell, x: int)
    requires
        0 <= j < r.len(),
        0 <= x <= r.len(),
        r[j] == GameCell::Empty,
        c != GameCell::Empty,
    ensures
        row_filled(r.update(j, c), x) == row_filled(r, x) + if j < x { 1nat } else { 0nat },
    decreases x,
{
    if x > 0 {
        lemma_row_filled_set(r, j, c, x - 1);
    }
}

/// Marking a free cell of the grid adds one mark to it.
pub proof fn lemma_filled_set(g: Seq<Seq<GameCell>>, p: Position, c: GameCell)
    requires
        grid_wf(g),
        cell_at(g, p) == Some(GameCell::Empty),
        c != GameCell::Empty,
    ensures
        grid_wf(set_at(g, p, c)),
        filled(set_at(g, p, c), 3) == filled(g, 3) + 1,
{
    let h = set_at(g, p, c);
    lemma_row_filled_set(g[p.y as int], p.x as int, c, 3);
    reveal_with_fuel(filled, 4);
    assert(forall|i: int| 0 <= i < 3 && i != p.y ==> h[i] == g[i]);
}

/// Writing a cell of the grid keeps its shape and puts the value there.
pub proof fn lemma_set_at(g: Seq<Seq<GameCell>>, p: Position, c: GameCell)
    requires
        grid_wf(g),
        cell_at(g, p) is Some,
    ensures
        grid_wf(set_at(g, p, c)),
        cell_at(set_at(g, p, c), p) == Some(c),
        forall|q: Position| q != p ==> cell_at(set_at(g, p, c), q) == #[trigger] cell_at(g, q),
{
    let h = set_at(g, p, c);
    assert forall|i: int| 0 <= i < 3 implies #[trigger] h[i].len() == 3 by {
        if i == p.y {
        } else {
            assert(h[i] == g[i]);
        }
    }
}

/// Writing back what a cell held restores the grid.
pub proof fn lemma_set_back(g: Seq<Seq<GameCell>>, p: Position, c: GameCell, v: GameCell)
    requires
        grid_wf(g),
        cell_at(g, p) == Some(v),
    ensures
        set_at(set_at(g, p, c), p, v) == g,
{
    let h = set_at(set_at(g, p, c), p, v);
    assert(h[p.y as int] =~= g[p.y as int]);
    assert(h =~= g);
}

/// Marking a free cell leaves fewer cells free.
pub proof fn lemma_mark_free(g: Seq<Seq<GameCell>>, p: Position, c: GameCell)
    requires
        grid_wf(g),
        cell_at(g, p) == Some(GameCell::Empty),
        c != GameCell::Empty,
    ensures
        available(set_at(g, p, c)).len() < available(g).len(),
{
    let h = set_at(g, p, c);
    lemma_set_at(g, p, c);
    lemma_filled_set(g, p, c);
    lemma_available_len(g);
    lemma_available_len(h);
}

/// A free top-left cell is listed among the free cells.
pub proof fn lemma_top_left_free(g: Seq<Seq<GameCell>>)
    requires
        grid_wf(g),
        g[0][0] == GameCell::Empty,
    ensures
        available(g).len() > 0,
{
    reveal_with_fuel(empties, 4);
    reveal_with_fuel(row_empties, 4);
    assert(row_empties(g[0], 0, 1).len() == 1);
    lemma_row_empties_len(g[0], 0, 3);
    lemma_row_empties_len(g[0], 0, 1);
    lemma_row_empties_grows(g[0], 0, 1, 3);
}

/// Looking at more of a row lists no fewer free cells.
pub proof fn lemma_row_empties_grows(r: Seq<GameCell>, y: int, x1: int, x2: int)
    requires
        0 <= x1 <= x2,
    ensures
        row_empties(r, y, x1).len() <= row_empties(r, y, x2).len(),
    decreases x2 - x1,
{
    if x1 < x2 {
        lemma_row_empties_grows(r, y, x1, x2 - 1);
    }
}

} // verus!
