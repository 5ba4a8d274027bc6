use vstd::prelude::*;

use crate::board::{count_sand, lemma_index_bounds, lemma_set_at, Board};
use crate::cell::Cell;

verus! {

proof fn lemma_count_update(s: Seq<Cell>, i: int, c: Cell)
    requires
        0 <= i < s.len(),
    ensures
        count_sand(s.update(i, c)) + (if s[i] == Cell::Sand { 1int } else { 0int }) == count_sand(s)
            + (if c == Cell::Sand { 1int } else { 0int }),
    decreases s.len(),
{
    let t = s.update(i, c);
    if i == s.len() - 1 {
        assert(t.drop_last() =~= s.drop_last());
    } else {
        assert(t.drop_last() =~= s.drop_last().update(i, c));
        lemma_count_update(s.drop_last(), i, c);
    }
}

proof fn lemma_set_count(b: Board, x: int, y: int, c: Cell)
    requires
        b.wf(),
        b.in_bounds(x, y),
    ensures
        b.set(x, y, c).sand_count() + (if b.at(x, y) == Cell::Sand { 1int } else { 0int })
            == b.sand_count() + (if c == Cell::Sand { 1int } else { 0int }),
{
    lemma_index_bounds(b.width as int, b.height as int, x, y);
    lemma_count_update(b.cells, b.index(x, y), c);
}

/// The fall rule keeps the board's shape and its number of grains.
proof fn lemma_fall_conserves(b: Board, x: int, y: int, coin: bool)
    requires
        b.wf(),
        b.in_bounds(x, y),
    ensures
        b.fall(x, y, coin).wf(),
        b.fall(x, y, coin).width == b.width,
        b.fall(x, y, coin).height == b.height,
        b.fall(x, y, coin).sand_count() == b.sand_count(),
{
    if b.at(x, y) == Cell::Sand {
        let tx = if b.movable(x, y + 1) {
            x
        } else if b.movable(x + 1, y + 1) && (coin || !b.movable(x - 1, y + 1)) {
            x + 1
        } else {
            x - 1
        };
        if b.movable(tx, y + 1) {
            let b1 = b.set(x, y, Cell::Air);
            lemma_set_count(b, x, y, Cell::Air);
            lemma_set_at(b, x, y, Cell::Air, tx, y + 1);
            lemma_set_count(b1, tx, y + 1, Cell::Sand);
            lemma_set_at(b1, tx, y + 1, Cell::Sand, tx, y + 1);
            assert(b.fall(x, y, coin) == b.moved(x, y, tx, y + 1));
        }
    }
}

proof fn lemma_row_from_conserves(b: Board, coins: Seq<bool>, y: int, x: int)
    requires
        b.wf(),
        0 <= y < b.height,
    ensures
        b.row_from(coins, y, x).wf(),
        b.row_from(coins, y, x).width == b.width,
        b.row_from(coins, y, x).height == b.height,
        b.row_from(coins, y, x).sand_count() == b.sand_count(),
    decreases b.width - x,
{
    if 0 <= x < b.width {
        let coin = b.coin_at(coins, x, y);
        lemma_fall_conserves(b, x, y, coin);
        lemma_row_from_conserves(b.fall(x, y, coin), coins, y, x + 1);
    }
}

proof fn lemma_rows_from_conserves(b: Board, coins: Seq<bool>, n: nat)
    requires
        b.wf(),
        n <= b.height,
    ensures
        b.rows_from(coins, n).wf(),
        b.rows_from(coins, n).width == b.width,
        b.rows_from(coins, n).height == b.height,
        b.rows_from(coins, n).sand_count() == b.sand_count(),
    decreases n,
{
    if n > 0 {
        lemma_row_from_conserves(b, coins, n - 1, 0);
        lemma_rows_from_conserves(b.row_from(coins, n - 1, 0), coins, (n - 1) as nat);
    }
}

/// One tick keeps the board's shape and moves grains without making or
/// losing any, whatever the tie-break coins.
pub proof fn lemma_step_conserves(b: Board, coins: Seq<bool>)
    requires
        b.wf(),
    ensures
        b.step(coins).wf(),
        b.step(coins).width == b.width,
        b.step(coins).height == b.height,
        b.step(coins).sand_count() == b.sand_count(),
{
    lemma_rows_from_conserves(b, coins, b.height);
}

/// Conservation: any number of ticks leaves the number of grains as it was.
pub proof fn lemma_run_conserves(b: Board, ticks: Seq<Seq<bool>>)
    requires
        b.wf(),
    ensures
        b.run(ticks).wf(),
        b.run(ticks).width == b.width,
        b.run(ticks).height == b.height,
        b.run(ticks).sand_count() == b.sand_count(),
    decreases ticks.len(),
{
    if ticks.len() > 0 {
        lemma_step_conserves(b, ticks[0]);
        lemma_run_conserves(b.step(ticks[0]), ticks.drop_first());
    }
}

/// Painting never removes a grain: cells become `Sand` or stay as they were.
pub proof fn lemma_paint_never_removes(b: Board, c: Board, cx: int, cy: int, r: int)
    requires
        b.wf(),
        c.wf(),
        c.width == b.width,
        c.height == b.height,
        forall|x: int, y: int|
            #![trigger c.at(x, y)]
            b.in_bounds(x, y) ==> c.at(x, y) == if Board::in_brush(cx, cy, r, x, y) {
                Cell::Sand
            } else {
                b.at(x, y)
            },
    ensures
        c.sand_count() >= b.sand_count(),
{
    assert forall|i: int| 0 <= i < b.cells.len() && b.cells[i] == Cell::Sand implies c.cells[i]
        == Cell::Sand by {
        let x = i % (b.width as int);
        let y = i / (b.width as int);
        assert(b.width > 0) by (nonlinear_arith)
            requires
                0 <= i < b.width * b.height,
        ;
        assert(i == y * b.width + x && 0 <= x < b.width) by (nonlinear_arith)
            requires
                x == i % (b.width as int),
                y == i / (b.width as int),
                b.width > 0,
        ;
        assert(0 <= y < b.height) by (nonlinear_arith)
            requires
                i == y * b.width + x,
                0 <= x < b.width,
                0 <= i < b.width * b.height,
        ;
        assert(c.at(x, y) == Cell::Sand);
    }
    lemma_count_mono(b.cells, c.cells);
}

proof fn lemma_count_mono(s: Seq<Cell>, t: Seq<Cell>)
    requires
        s.len() == t.len(),
        forall|i: int| 0 <= i < s.len() && s[i] == Cell::Sand ==> t[i] == Cell::Sand,
    ensures
        count_sand(t) >= count_sand(s),
    decreases s.len(),
{
    if s.len() > 0 {
        lemma_count_mono(s.drop_last(), t.drop_last());
    }
}

/// Cells of a row that hold `Air` are passed over: their fall rule
/// changes nothing.
proof fn lemma_row_from_skip(b: Board, coins: Seq<bool>, y: int, j: int, k: int)
    requires
        b.wf(),
        0 <= y < b.height,
        0 <= j <= k <= b.width,
        forall|i: int| j <= i < k ==> #[trigger] b.at(i, y) == Cell::Air,
    ensures
        b.row_from(coins, y, j) == b.row_from(coins, y, k),
    decreases k - j,
{
    if j < k {
        assert(b.at(j, y) == Cell::Air);
        lemma_row_from_skip(b, coins, y, j + 1, k);
    }
}

/// Rows that hold only `Air` are passed over too.
proof fn lemma_rows_from_skip(b: Board, coins: Seq<bool>, m: nat, n: nat)
    requires
        b.wf(),
        m <= n <= b.height,
        forall|x: int, y: int|
            0 <= x < b.width && m <= y < n ==> #[trigger] b.at(x, y) == Cell::Air,
    ensures
        b.rows_from(coins, n) == b.rows_from(coins, m),
    decreases n,
{
    if m < n {
        lemma_row_from_skip(b, coins, n - 1, 0, b.width as int);
        lemma_rows_from_skip(b, coins, m, (n - 1) as nat);
    }
}

proof fn lemma_settled_row(b: Board, coins: Seq<bool>, y: int, x: int)
    requires
        b.wf(),
        b.settled(),
        0 <= y < b.height,
    ensures
        b.row_from(coins, y, x) == b,
    decreases b.width - x,
{
    if 0 <= x < b.width {
        assert(b.fall(x, y, b.coin_at(coins, x, y)) == b) by {
            if b.at(x, y) == Cell::Sand {
                assert(b.is_sand(x, y));
            }
        }
        lemma_settled_row(b, coins, y, x + 1);
    }
}

proof fn lemma_settled_rows(b: Board, coins: Seq<bool>, n: nat)
    requires
        b.wf(),
        b.settled(),
        n <= b.height,
    ensures
        b.rows_from(coins, n) == b,
    decreases n,
{
    if n > 0 {
        lemma_settled_row(b, coins, n - 1, 0);
        lemma_settled_rows(b, coins, (n - 1) as nat);
    }
}

/// A board on which no grain has a free cell below it is left as it is by
/// a tick, whatever the tie-break coins.
pub proof fn lemma_settled_step(b: Board, coins: Seq<bool>)
    requires
        b.wf(),
        b.settled(),
    ensures
        b.step(coins) == b,
{
    lemma_settled_rows(b, coins, b.height);
}

/// A settled board stays as it is over any number of ticks.
pub proof fn lemma_settled_run(b: Board, ticks: Seq<Seq<bool>>)
    requires
        b.wf(),
        b.settled(),
    ensures
        b.run(ticks) == b,
    decreases ticks.len(),
{
    if ticks.len() > 0 {
        lemma_settled_step(b, ticks[0]);
        lemma_settled_run(b, ticks.drop_first());
    }
}

/// A packed block of grains two cells wide, two rows tall, resting on the
/// floor of a board exactly as wide as the block, with `Air` above it, is
/// stable: no grain moves over any number of ticks.
pub proof fn lemma_floor_block_stable(b: Board, ticks: Seq<Seq<bool>>)
    requires
        b.wf(),
        b.width == 2,
        b.height >= 2,
        forall|x: int, y: int|
            #![trigger b.at(x, y)]
            b.in_bounds(x, y) ==> b.at(x, y) == if y >= b.height - 2 {
                Cell::Sand
            } else {
                Cell::Air
            },
    ensures
        b.run(ticks) == b,
{
    assert forall|x: int, y: int| #[trigger] b.is_sand(x, y) implies !b.movable(x, y + 1)
        && !b.movable(x + 1, y + 1) && !b.movable(x - 1, y + 1) by {
        if y + 1 < b.height {
            assert(b.at(x, y + 1) == Cell::Sand);
            if x == 0 {
                assert(b.at(x + 1, y + 1) == Cell::Sand);
            } else {
                assert(b.at(x - 1, y + 1) == Cell::Sand);
            }
        }
    }
    lemma_settled_run(b, ticks);
}

proof fn lemma_single_at(w: nat, h: nat, x0: int, y0: int, x: int, y: int)
    requires
        0 <= x0 < w,
        0 <= y0 < h,
        0 <= x < w,
        0 <= y < h,
    ensures
        Board::single(w, h, x0, y0).wf(),
        Board::single(w, h, x0, y0).at(x, y) == if x == x0 && y == y0 {
            Cell::Sand
        } else {
            Cell::Air
        },
{
    let e = Board::empty(w, h);
    lemma_index_bounds(w as int, h as int, x, y);
    lemma_set_at(e, x0, y0, Cell::Sand, x, y);
}

/// A lone grain with a free cell below it drops by exactly one row in a
/// tick; one on the floor stays.
pub proof fn lemma_single_step(w: nat, h: nat, x0: int, y0: int, coins: Seq<bool>)
    requires
        0 <= x0 < w,
        0 <= y0 < h,
    ensures
        Board::single(w, h, x0, y0).step(coins) == Board::single(
            w,
            h,
            x0,
            if y0 + 1 < h { y0 + 1 } else { y0 },
        ),
{
    let b = Board::single(w, h, x0, y0);
    lemma_single_at(w, h, x0, y0, x0, y0);
    if y0 + 1 < h {
        let b2 = Board::single(w, h, x0, y0 + 1);
        assert forall|x: int, y: int| 0 <= x < w && 0 <= y < h implies #[trigger] b.at(x, y) == if x
            == x0 && y == y0 {
            Cell::Sand
        } else {
            Cell::Air
        } by {
            lemma_single_at(w, h, x0, y0, x, y);
        }
        assert forall|x: int, y: int| 0 <= x < w && 0 <= y < h implies #[trigger] b2.at(x, y) == if x
            == x0 && y == y0 + 1 {
            Cell::Sand
        } else {
            Cell::Air
        } by {
            lemma_single_at(w, h, x0, y0 + 1, x, y);
        }
        lemma_rows_from_skip(b, coins, (y0 + 1) as nat, h);
        lemma_row_from_skip(b, coins, y0, 0, x0);
        let coin = b.coin_at(coins, x0, y0);
        assert(b.movable(x0, y0 + 1));
        lemma_index_bounds(w as int, h as int, x0, y0);
        lemma_index_bounds(w as int, h as int, x0, y0 + 1);
        assert(b.fall(x0, y0, coin).cells =~= b2.cells);
        assert(b.fall(x0, y0, coin) == b2);
        lemma_row_from_skip(b2, coins, y0, x0 + 1, w as int);
        lemma_rows_from_skip(b2, coins, 0, y0 as nat);
    } else {
        assert forall|x: int, y: int| #[trigger] b.is_sand(x, y) implies !b.movable(x, y + 1)
            && !b.movable(x + 1, y + 1) && !b.movable(x - 1, y + 1) by {
            lemma_single_at(w, h, x0, y0, x, y);
        }
        lemma_settled_step(b, coins);
    }
}

/// Settling: a lone grain at row `y0` of an otherwise empty board stands at
/// row `y0 + n` after `n` ticks until it reaches the floor, which takes
/// exactly `height - 1 - y0` ticks, and then stays there.
pub proof fn lemma_single_run(w: nat, h: nat, x0: int, y0: int, ticks: Seq<Seq<bool>>)
    requires
        0 <= x0 < w,
        0 <= y0 < h,
    ensures
        Board::single(w, h, x0, y0).run(ticks) == Board::single(
            w,
            h,
            x0,
            if y0 + ticks.len() < h { y0 + ticks.len() } else { h - 1 },
        ),
    decreases ticks.len(),
{
    if ticks.len() > 0 {
        lemma_single_step(w, h, x0, y0, ticks[0]);
        let y1 = if y0 + 1 < h { y0 + 1 } else { y0 };
        lemma_single_run(w, h, x0, y1, ticks.drop_first());
    }
}

/// Bounds safety: a position at or past an edge is off the board, and so
/// is a column of `usize::MAX`, which is what a column below zero wraps to.
pub proof fn lemma_bounds_safety(b: Board, x: int, y: int)
    requires
        b.width <= usize::MAX,
    ensures
        x >= b.width || y >= b.height ==> !b.in_bounds(x, y),
        !b.in_bounds(usize::MAX as int, y),
{
}

/// The fall rule at `(x, y)` changes at most that cell and, when it holds
/// `Sand`, one of the three below it, which then holds `Sand`.
proof fn lemma_fall_change(b: Board, x: int, y: int, coin: bool, i: int, j: int)
    requires
        b.wf(),
        b.in_bounds(x, y),
        b.in_bounds(i, j),
    ensures
        b.fall(x, y, coin).at(i, j) != b.at(i, j) ==> (i == x && j == y) || (j == y + 1 && x - 1
            <= i <= x + 1 && b.at(x, y) == Cell::Sand && b.fall(x, y, coin).at(i, j) == Cell::Sand),
{
    if b.at(x, y) == Cell::Sand {
        let tx = if b.movable(x, y + 1) {
            x
        } else if b.movable(x + 1, y + 1) && (coin || !b.movable(x - 1, y + 1)) {
            x + 1
        } else {
            x - 1
        };
        if b.movable(tx, y + 1) {
            let b1 = b.set(x, y, Cell::Air);
            lemma_set_at(b, x, y, Cell::Air, i, j);
            lemma_set_at(b1, tx, y + 1, Cell::Sand, i, j);
            assert(b.fall(x, y, coin) == b.moved(x, y, tx, y + 1));
        }
    }
}

/// The cells of `b` still to be swept, those of rows above `y` and those
/// of row `y` from column `x` on, are as in `a`.
spec fn unswept(a: Board, b: Board, y: int, x: int) -> bool {
    forall|i: int, j: int|
        #![trigger b.at(i, j)]
        a.in_bounds(i, j) && (j < y || (j == y && i >= x)) ==> b.at(i, j) == a.at(i, j)
}

proof fn lemma_row_from_feeds(a: Board, b: Board, coins: Seq<bool>, y: int, x: int)
    requires
        a.wf(),
        b.wf(),
        b.width == a.width,
        b.height == a.height,
        0 <= y < a.height,
        0 <= x,
        unswept(a, b, y, x),
        a.feeds(b),
    ensures
        unswept(a, b.row_from(coins, y, x), y, a.width as int),
        a.feeds(b.row_from(coins, y, x)),
    decreases b.width - x,
{
    if x < b.width {
        let coin = b.coin_at(coins, x, y);
        let c = b.fall(x, y, coin);
        lemma_fall_conserves(b, x, y, coin);
        assert(b.at(x, y) == a.at(x, y));
        assert forall|i: int, j: int| a.in_bounds(i, j) && (j < y || (j == y && i >= x + 1)) implies #[trigger] c.at(
            i,
            j,
        ) == a.at(i, j) by {
            lemma_fall_change(b, x, y, coin, i, j);
        }
        assert forall|i: int, j: int| #[trigger] c.is_sand(i, j) implies a.is_sand(i, j) || a.is_sand(
            i - 1,
            j - 1,
        ) || a.is_sand(i, j - 1) || a.is_sand(i + 1, j - 1) by {
            lemma_fall_change(b, x, y, coin, i, j);
            if c.at(i, j) == b.at(i, j) {
                assert(b.is_sand(i, j));
            } else {
                assert(a.is_sand(x, y));
            }
        }
        lemma_row_from_feeds(a, c, coins, y, x + 1);
    } else {
        assert forall|i: int, j: int| a.in_bounds(i, j) && (j < y || (j == y && i >= a.width)) implies #[trigger] b.at(
            i,
            j,
        ) == a.at(i, j) by {
        }
    }
}

proof fn lemma_rows_from_feeds(a: Board, b: Board, coins: Seq<bool>, n: nat)
    requires
        a.wf(),
        b.wf(),
        b.width == a.width,
        b.height == a.height,
        n <= a.height,
        unswept(a, b, n - 1, 0),
        a.feeds(b),
    ensures
        a.feeds(b.rows_from(coins, n)),
    decreases n,
{
    if n > 0 {
        let y = n - 1;
        lemma_row_from_feeds(a, b, coins, y, 0);
        lemma_row_from_conserves(b, coins, y, 0);
        let c = b.row_from(coins, y, 0);
        assert forall|i: int, j: int| a.in_bounds(i, j) && (j < y - 1 || (j == y - 1 && i >= 0)) implies #[trigger] c.at(
            i,
            j,
        ) == a.at(i, j) by {
        }
        lemma_rows_from_feeds(a, c, coins, (n - 1) as nat);
    }
}

/// No double move: after a tick every grain stands where a grain stood
/// before, or one row below such a place and at most one column aside.
pub proof fn lemma_step_moves_one_row(b: Board, coins: Seq<bool>)
    requires
        b.wf(),
    ensures
        b.feeds(b.step(coins)),
{
    assert(unswept(b, b, b.height - 1, 0));
    lemma_rows_from_feeds(b, b, coins, b.height);
}

/// Tie-break: a grain blocked straight below with both lower diagonals free
/// goes right on a `true` coin and left on a `false` one, so each coin
/// value leads to a different one of the two targets.
pub proof fn lemma_tie_break(b: Board, x: int, y: int)
    requires
        b.is_sand(x, y),
        !b.movable(x, y + 1),
        b.movable(x + 1, y + 1),
        b.movable(x - 1, y + 1),
    ensures
        b.fall(x, y, true) == b.moved(x, y, x + 1, y + 1),
        b.fall(x, y, false) == b.moved(x, y, x - 1, y + 1),
{
}

} // verus!
