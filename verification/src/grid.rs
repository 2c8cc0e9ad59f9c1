//! The playfield: a row-major array of settled cells, with the operations
//! that lock a piece into it and remove completed rows.
//!
//! A cell holds 0 when empty and the piece type plus one otherwise.

use crate::block::{Block, TETRIS_H, TETRIS_W};
use vstd::prelude::*;

verus! {

/// Number of cells in the playfield.
pub const GRID_CELLS: usize = 240;

/// The cell in column `x` of row `y`.
pub open spec fn cell_at(grid: Seq<usize>, x: int, y: int) -> usize {
    grid[x + y * TETRIS_W]
}

/// One of the first `n` cells of the piece has row-major index `j`.
pub open spec fn covers_first(b: Block, j: int, n: int) -> bool {
    (n > 0 && b.index(0) == j) || (n > 1 && b.index(1) == j) || (n > 2 && b.index(2) == j) || (n
        > 3 && b.index(3) == j)
}

/// Some cell of the piece has row-major index `j`.
pub open spec fn covers(b: Block, j: int) -> bool {
    covers_first(b, j, 4)
}

/// The grid with the piece locked into it: every cell whose index the piece
/// covers holds the piece type plus one, every other cell is unchanged.
pub open spec fn imprinted(grid: Seq<usize>, b: Block) -> Seq<usize> {
    Seq::new(
        grid.len(),
        |j: int|
            if covers(b, j) {
                (b.block_type + 1) as usize
            } else {
                grid[j]
            },
    )
}

/// Locks the piece into the grid. Cells whose index falls outside the grid,
/// such as those above the top edge, are skipped.
pub fn set_grid(grid: &mut [usize], b: &Block)
    requires
        b.block_type < 7,
    ensures
        final(grid)@ == imprinted(old(grid)@, *b),
{
    let mut i: usize = 0;
    while i < 4
        invariant
            i <= 4,
            b.block_type < 7,
            grid@.len() == old(grid)@.len(),
            forall|j: int|
                0 <= j < grid@.len() ==> grid@[j] == if covers_first(*b, j, i as int) {
                    (b.block_type + 1) as usize
                } else {
                    old(grid)@[j]
                },
        decreases 4 - i,
    {
        let (col, row) = b.cell(i);
        let idx: i64 = col + row * TETRIS_W as i64;
        if idx >= 0 && (idx as u64) < grid.len() as u64 {
            grid[idx as usize] = b.block_type + 1;
        }
        i += 1;
    }
    assert(grid@ =~= imprinted(old(grid)@, *b));
}

/// Every cell of row `y` is settled.
pub open spec fn row_full(grid: Seq<usize>, y: int) -> bool {
    forall|x: int| 0 <= x < TETRIS_W ==> #[trigger] cell_at(grid, x, y) != 0
}

/// Flags the rows in which every cell is settled.
pub fn full_rows(grid: &[usize; GRID_CELLS]) -> (rows: [bool; TETRIS_H])
    ensures
        rows@ == full_row_flags(grid@),
{
    let mut rows = [false; TETRIS_H];
    let mut y: usize = 0;
    while y < TETRIS_H
        invariant
            y <= TETRIS_H,
            forall|r: int| 0 <= r < y ==> rows[r] == row_full(grid@, r),
        decreases TETRIS_H - y,
    {
        let mut line = true;
        let mut x: usize = 0;
        while x < TETRIS_W
            invariant
                x <= TETRIS_W,
                y < TETRIS_H,
                line == forall|c: int| 0 <= c < x ==> #[trigger] cell_at(grid@, c, y as int) != 0,
            decreases TETRIS_W - x,
        {
            if grid[x + y * TETRIS_W] == 0 {
                assert(cell_at(grid@, x as int, y as int) == 0);
                line = false;
            }
            x += 1;
        }
        rows[y] = line;
        y += 1;
    }
    assert(rows@ =~= full_row_flags(grid@));
    rows
}

/// Counts the flagged rows.
pub fn count_rows(rows: &[bool; TETRIS_H]) -> (n: usize)
    ensures
        n == flagged_in(rows@, 0, TETRIS_H as int),
        n <= TETRIS_H,
{
    let mut n: usize = 0;
    let mut y: usize = 0;
    while y < TETRIS_H
        invariant
            y <= TETRIS_H,
            n <= y,
            n == flagged_in(rows@, 0, y as int),
        decreases TETRIS_H - y,
    {
        if rows[y] {
            n += 1;
        }
        y += 1;
    }
    n
}

/// The flags that [`full_rows`] gives for the grid.
pub open spec fn full_row_flags(grid: Seq<usize>) -> Seq<bool> {
    Seq::new(TETRIS_H as nat, |y: int| row_full(grid, y))
}

/// The grid after row `y` is taken out: the rows above it move down by one
/// with their columns unchanged, and the top row is empty.
pub open spec fn without_row(grid: Seq<usize>, y: int) -> Seq<usize> {
    Seq::new(
        grid.len(),
        |k: int|
            if k >= (y + 1) * TETRIS_W {
                grid[k]
            } else if k < TETRIS_W {
                0usize
            } else {
                grid[k - TETRIS_W]
            },
    )
}

/// The grid after the flagged rows below row `n` are taken out one at a
/// time, from the top of the playfield downwards.
pub open spec fn cleared_upto(grid: Seq<usize>, rows: Seq<bool>, n: int) -> Seq<usize>
    decreases n,
{
    if n <= 0 {
        grid
    } else if rows[n - 1] {
        without_row(cleared_upto(grid, rows, n - 1), n - 1)
    } else {
        cleared_upto(grid, rows, n - 1)
    }
}

/// The grid after every flagged row is taken out.
pub open spec fn cleared(grid: Seq<usize>, rows: Seq<bool>) -> Seq<usize> {
    cleared_upto(grid, rows, TETRIS_H as int)
}

fn remove_row(grid: &mut [usize; GRID_CELLS], y: usize)
    requires
        y < TETRIS_H,
    ensures
        final(grid)@ == without_row(old(grid)@, y as int),
{
    let mut k: usize = (y + 1) * TETRIS_W;
    while k > 0
        invariant
            k <= (y + 1) * TETRIS_W,
            y < TETRIS_H,
            forall|j: int| 0 <= j < k ==> grid@[j] == old(grid)@[j],
            forall|j: int| k <= j < GRID_CELLS ==> grid@[j] == without_row(old(grid)@, y as int)[j],
        decreases k,
    {
        k -= 1;
        grid[k] = if k < TETRIS_W {
            0
        } else {
            grid[k - TETRIS_W]
        };
    }
    assert(grid@ =~= without_row(old(grid)@, y as int));
}

/// Removes every flagged row. Rows are taken out one at a time from the top
/// of the playfield downwards; each removal moves the rows above it down by
/// one.
pub fn clear_rows(grid: &mut [usize; GRID_CELLS], rows: &[bool; TETRIS_H])
    ensures
        final(grid)@ == cleared(old(grid)@, rows@),
{
    let mut i: usize = 0;
    while i < TETRIS_H
        invariant
            i <= TETRIS_H,
            grid@ == cleared_upto(old(grid)@, rows@, i as int),
        decreases TETRIS_H - i,
    {
        if rows[i] {
            remove_row(grid, i);
        }
        i += 1;
    }
}

/// The grid with columns `c` and `W - 1 - c` of every flagged row emptied.
pub open spec fn peeled(grid: Seq<usize>, rows: Seq<bool>, c: int) -> Seq<usize> {
    Seq::new(
        grid.len(),
        |k: int|
            if rows[k / TETRIS_W as int] && (k % TETRIS_W as int == c || k % TETRIS_W as int
                == TETRIS_W - 1 - c) {
                0usize
            } else {
                grid[k]
            },
    )
}

/// Empties one pair of columns in every flagged row: column `c` and its
/// mirror image.
pub fn peel_columns(grid: &mut [usize; GRID_CELLS], rows: &[bool; TETRIS_H], c: usize)
    requires
        c < TETRIS_W,
    ensures
        final(grid)@ == peeled(old(grid)@, rows@, c as int),
{
    let mut i: usize = 0;
    while i < TETRIS_H
        invariant
            i <= TETRIS_H,
            c < TETRIS_W,
            forall|k: int|
                0 <= k < i * TETRIS_W ==> grid@[k] == peeled(old(grid)@, rows@, c as int)[k],
            forall|k: int| i * TETRIS_W <= k < GRID_CELLS ==> grid@[k] == old(grid)@[k],
        decreases TETRIS_H - i,
    {
        if rows[i] {
            grid[c + i * TETRIS_W] = 0;
            grid[TETRIS_W - c - 1 + i * TETRIS_W] = 0;
        }
        i += 1;
    }
    assert(grid@ =~= peeled(old(grid)@, rows@, c as int));
}

/// The cell `k` places after index `lo` is settled.
pub open spec fn settled_at(grid: Seq<usize>, lo: int, k: int) -> bool {
    grid[lo + k] != 0
}

/// Number of settled cells among the `n` cells from index `lo` on.
pub open spec fn settled_in(grid: Seq<usize>, lo: int, n: int) -> int
    decreases n,
{
    if n <= 0 {
        0
    } else {
        settled_in(grid, lo, n - 1) + if settled_at(grid, lo, n - 1) {
            1int
        } else {
            0int
        }
    }
}

/// Number of settled cells in the grid.
pub open spec fn settled(grid: Seq<usize>) -> int {
    settled_in(grid, 0, grid.len() as int)
}

/// Number of flagged rows from row `lo` up to, but not including, row `hi`.
pub open spec fn flagged_in(rows: Seq<bool>, lo: int, hi: int) -> int
    decreases hi - lo,
{
    if hi <= lo {
        0
    } else {
        flagged_in(rows, lo, hi - 1) + if rows[hi - 1] {
            1int
        } else {
            0int
        }
    }
}

proof fn lemma_settled_split(grid: Seq<usize>, lo: int, a: int, b: int)
    requires
        0 <= a,
        0 <= b,
    ensures
        settled_in(grid, lo, a + b) == settled_in(grid, lo, a) + settled_in(grid, lo + a, b),
    decreases b,
{
    if b > 0 {
        lemma_settled_split(grid, lo, a, b - 1);
    }
}

proof fn lemma_settled_same(g: Seq<usize>, lo: int, h: Seq<usize>, at: int, n: int)
    requires
        forall|k: int| 0 <= k < n ==> #[trigger] settled_at(g, lo, k) == settled_at(h, at, k),
    ensures
        settled_in(g, lo, n) == settled_in(h, at, n),
    decreases n,
{
    if n > 0 {
        lemma_settled_same(g, lo, h, at, n - 1);
    }
}

proof fn lemma_settled_bounds(g: Seq<usize>, lo: int, n: int)
    requires
        0 <= n,
    ensures
        0 <= settled_in(g, lo, n) <= n,
        (forall|k: int| 0 <= k < n ==> #[trigger] settled_at(g, lo, k)) ==> settled_in(g, lo, n)
            == n,
        (forall|k: int| 0 <= k < n ==> !#[trigger] settled_at(g, lo, k)) ==> settled_in(g, lo, n)
            == 0,
    decreases n,
{
    if n > 0 {
        lemma_settled_bounds(g, lo, n - 1);
    }
}

/// There are no more flagged rows in a range than rows.
pub proof fn lemma_flagged_bounds(rows: Seq<bool>, lo: int, hi: int)
    requires
        lo <= hi,
    ensures
        0 <= flagged_in(rows, lo, hi) <= hi - lo,
    decreases hi - lo,
{
    if lo < hi {
        lemma_flagged_bounds(rows, lo, hi - 1);
    }
}

proof fn lemma_without_row_settled(g: Seq<usize>, y: int)
    requires
        g.len() == GRID_CELLS,
        0 <= y < TETRIS_H,
        row_full(g, y),
    ensures
        settled(without_row(g, y)) == settled(g) - TETRIS_W,
{
    let h = without_row(g, y);
    let w = TETRIS_W as int;
    let below = GRID_CELLS - (y + 1) * w;
    // The grid after: an empty top row, the rows that moved, the rows that stayed.
    lemma_settled_split(h, 0, w, y * w);
    lemma_settled_split(h, 0, (y + 1) * w, below);
    lemma_settled_bounds(h, 0, w);
    lemma_settled_same(h, w, g, 0, y * w);
    lemma_settled_same(h, (y + 1) * w, g, (y + 1) * w, below);
    // The grid before: the rows that move, the full row, the rows that stay.
    lemma_settled_split(g, 0, y * w, w);
    lemma_settled_split(g, 0, (y + 1) * w, below);
    assert forall|k: int| 0 <= k < w implies #[trigger] settled_at(g, y * w, k) by {
        assert(cell_at(g, k, y) != 0);
    }
    lemma_settled_bounds(g, y * w, w);
}

/// What holds of the grid once the flagged rows below row `n` are out.
proof fn lemma_cleared_upto(g: Seq<usize>, rows: Seq<bool>, n: int)
    requires
        g.len() == GRID_CELLS,
        rows.len() == TETRIS_H,
        0 <= n <= TETRIS_H,
    ensures
        cleared_upto(g, rows, n).len() == GRID_CELLS,
        forall|k: int| n * TETRIS_W <= k < GRID_CELLS ==> cleared_upto(g, rows, n)[k] == g[k],
        (forall|y: int| 0 <= y < n && rows[y] ==> row_full(g, y)) ==> settled(
            cleared_upto(g, rows, n),
        ) == settled(g) - TETRIS_W * flagged_in(rows, 0, n),
        forall|x: int, y: int|
            0 <= x < TETRIS_W && 0 <= y < n && !rows[y] ==> cell_at(
                cleared_upto(g, rows, n),
                x,
                y + flagged_in(rows, y + 1, n),
            ) == #[trigger] cell_at(g, x, y),
        forall|x: int, r: int|
            0 <= x < TETRIS_W && 0 <= r < flagged_in(rows, 0, n) ==> #[trigger] cell_at(
                cleared_upto(g, rows, n),
                x,
                r,
            ) == 0,
    decreases n,
{
    if n > 0 {
        let m = n - 1;
        let prev = cleared_upto(g, rows, m);
        let next = cleared_upto(g, rows, n);
        lemma_cleared_upto(g, rows, m);
        lemma_flagged_bounds(rows, 0, m);
        if rows[m] {
            assert(next == without_row(prev, m));
            if forall|y: int| 0 <= y < n && rows[y] ==> row_full(g, y) {
                assert(row_full(g, m));
                assert forall|x: int| 0 <= x < TETRIS_W implies #[trigger] cell_at(prev, x, m)
                    != 0 by {
                    assert(cell_at(g, x, m) != 0);
                }
                lemma_without_row_settled(prev, m);
                assert(TETRIS_W * flagged_in(rows, 0, n) == TETRIS_W * flagged_in(rows, 0, m)
                    + TETRIS_W) by (nonlinear_arith)
                    requires
                        flagged_in(rows, 0, n) == flagged_in(rows, 0, m) + 1,
                ;
            }
            assert forall|x: int, y: int|
                0 <= x < TETRIS_W && 0 <= y < n && !rows[y] implies cell_at(
                next,
                x,
                y + flagged_in(rows, y + 1, n),
            ) == #[trigger] cell_at(g, x, y) by {
                let t = y + flagged_in(rows, y + 1, m);
                lemma_flagged_bounds(rows, y + 1, m);
                assert(cell_at(prev, x, t) == cell_at(g, x, y));
                assert(flagged_in(rows, y + 1, n) == flagged_in(rows, y + 1, m) + 1);
                assert(next[x + (t + 1) * TETRIS_W] == prev[x + (t + 1) * TETRIS_W - TETRIS_W]);
            }
            assert forall|x: int, r: int|
                0 <= x < TETRIS_W && 0 <= r < flagged_in(rows, 0, n) implies #[trigger] cell_at(
                next,
                x,
                r,
            ) == 0 by {
                if r > 0 {
                    assert(cell_at(prev, x, r - 1) == 0);
                    assert(next[x + r * TETRIS_W] == prev[x + r * TETRIS_W - TETRIS_W]);
                }
            }
        } else {
            assert(next == prev);
            assert forall|x: int, y: int|
                0 <= x < TETRIS_W && 0 <= y < n && !rows[y] implies cell_at(
                next,
                x,
                y + flagged_in(rows, y + 1, n),
            ) == #[trigger] cell_at(g, x, y) by {
                if y < m {
                    assert(cell_at(prev, x, y + flagged_in(rows, y + 1, m)) == cell_at(g, x, y));
                } else {
                    assert(flagged_in(rows, y + 1, n) == 0);
                }
            }
        }
    }
}

/// Taking out full rows lowers the number of settled cells by exactly one
/// row's width for each row taken out.
pub proof fn lemma_clear_rows_settled(grid: Seq<usize>, rows: Seq<bool>)
    requires
        grid.len() == GRID_CELLS,
        rows.len() == TETRIS_H,
        forall|y: int| 0 <= y < TETRIS_H && rows[y] ==> row_full(grid, y),
    ensures
        settled(cleared(grid, rows)) == settled(grid) - TETRIS_W * flagged_in(
            rows,
            0,
            TETRIS_H as int,
        ),
        (exists|y: int| 0 <= y < TETRIS_H && rows[y]) ==> settled(cleared(grid, rows)) < settled(
            grid,
        ),
{
    lemma_cleared_upto(grid, rows, TETRIS_H as int);
    if exists|y: int| 0 <= y < TETRIS_H && rows[y] {
        let y = choose|y: int| 0 <= y < TETRIS_H && rows[y];
        lemma_flagged_some(rows, y, TETRIS_H as int);
    }
}

/// Flagging the full rows and taking them out lowers the number of settled
/// cells by one row's width for each full row.
pub proof fn lemma_clear_full_rows(grid: Seq<usize>)
    requires
        grid.len() == GRID_CELLS,
    ensures
        settled(cleared(grid, full_row_flags(grid))) == settled(grid) - TETRIS_W * flagged_in(
            full_row_flags(grid),
            0,
            TETRIS_H as int,
        ),
        (exists|y: int| 0 <= y < TETRIS_H && row_full(grid, y)) ==> settled(
            cleared(grid, full_row_flags(grid)),
        ) < settled(grid),
{
    let rows = full_row_flags(grid);
    lemma_clear_rows_settled(grid, rows);
    if exists|y: int| 0 <= y < TETRIS_H && row_full(grid, y) {
        let y = choose|y: int| 0 <= y < TETRIS_H && row_full(grid, y);
        assert(rows[y]);
    }
}

proof fn lemma_flagged_some(rows: Seq<bool>, y: int, hi: int)
    requires
        0 <= y < hi,
        rows[y],
    ensures
        flagged_in(rows, 0, hi) >= 1,
    decreases hi,
{
    if y < hi - 1 {
        lemma_flagged_some(rows, y, hi - 1);
    } else {
        lemma_flagged_bounds(rows, 0, hi - 1);
    }
}

/// A row that is not taken out keeps its cells in their columns and moves
/// down by the number of rows taken out below it.
pub proof fn lemma_clear_rows_keeps_row(grid: Seq<usize>, rows: Seq<bool>, x: int, y: int)
    requires
        grid.len() == GRID_CELLS,
        rows.len() == TETRIS_H,
        0 <= x < TETRIS_W,
        0 <= y < TETRIS_H,
        !rows[y],
    ensures
        y + flagged_in(rows, y + 1, TETRIS_H as int) < TETRIS_H,
        cell_at(cleared(grid, rows), x, y + flagged_in(rows, y + 1, TETRIS_H as int)) == cell_at(
            grid,
            x,
            y,
        ),
{
    lemma_cleared_upto(grid, rows, TETRIS_H as int);
    lemma_flagged_bounds(rows, y + 1, TETRIS_H as int);
    assert(cell_at(cleared(grid, rows), x, y + flagged_in(rows, y + 1, TETRIS_H as int))
        == cell_at(grid, x, y));
}

/// As many rows at the top are empty as rows were taken out.
pub proof fn lemma_clear_rows_top_empty(grid: Seq<usize>, rows: Seq<bool>, x: int, r: int)
    requires
        grid.len() == GRID_CELLS,
        rows.len() == TETRIS_H,
        0 <= x < TETRIS_W,
        0 <= r < flagged_in(rows, 0, TETRIS_H as int),
    ensures
        cell_at(cleared(grid, rows), x, r) == 0,
{
    lemma_cleared_upto(grid, rows, TETRIS_H as int);
}

/// No cell of the grid holds more than `m`.
pub open spec fn cells_within(grid: Seq<usize>, m: int) -> bool {
    forall|k: int| 0 <= k < grid.len() ==> grid[k] <= m
}

/// Locking a piece writes its type plus one and nothing else.
pub proof fn lemma_imprinted_within(grid: Seq<usize>, b: Block, m: int)
    requires
        cells_within(grid, m),
        b.block_type < m,
    ensures
        imprinted(grid, b).len() == grid.len(),
        cells_within(imprinted(grid, b), m),
{
}

/// Emptying cells keeps the grid's values in range and blocks no piece
/// that was free.
pub proof fn lemma_peeled_within(grid: Seq<usize>, rows: Seq<bool>, c: int, m: int)
    requires
        cells_within(grid, m),
        0 <= m,
    ensures
        peeled(grid, rows, c).len() == grid.len(),
        cells_within(peeled(grid, rows, c), m),
        forall|b: Block| !b.collides(grid) ==> !#[trigger] b.collides(peeled(grid, rows, c)),
{
}

/// Taking rows out keeps the grid's values in range.
pub proof fn lemma_cleared_within(grid: Seq<usize>, rows: Seq<bool>, n: int, m: int)
    requires
        cells_within(grid, m),
        0 <= m,
    ensures
        cleared_upto(grid, rows, n).len() == grid.len(),
        cells_within(cleared_upto(grid, rows, n), m),
    decreases n,
{
    if n > 0 {
        lemma_cleared_within(grid, rows, n - 1, m);
    }
}

/// The grid with the columns from `c` to its mirror image emptied in every
/// flagged row: what the clear animation has made of the grid when `c` of
/// its steps are still to come.
pub open spec fn peeled_from(grid: Seq<usize>, rows: Seq<bool>, c: int) -> Seq<usize> {
    Seq::new(
        grid.len(),
        |k: int|
            if rows[k / TETRIS_W as int] && c <= k % TETRIS_W as int <= TETRIS_W - 1 - c {
                0usize
            } else {
                grid[k]
            },
    )
}

/// Before its first step the animation has emptied nothing, and each step
/// widens the emptied columns by one pair.
pub proof fn lemma_peel_goes_on(grid: Seq<usize>, rows: Seq<bool>, c: int)
    requires
        0 <= c < 5,
    ensures
        peeled_from(grid, rows, 5) == grid,
        peeled(peeled_from(grid, rows, c + 1), rows, c) == peeled_from(grid, rows, c),
{
    assert(peeled_from(grid, rows, 5) =~= grid);
    assert(peeled(peeled_from(grid, rows, c + 1), rows, c) =~= peeled_from(grid, rows, c));
}

proof fn lemma_cleared_upto_ignores_flagged(g: Seq<usize>, h: Seq<usize>, rows: Seq<bool>, n: int)
    requires
        g.len() == GRID_CELLS,
        h.len() == GRID_CELLS,
        rows.len() == TETRIS_H,
        0 <= n <= TETRIS_H,
        forall|k: int| 0 <= k < GRID_CELLS && !rows[k / TETRIS_W as int] ==> g[k] == h[k],
    ensures
        cleared_upto(g, rows, n).len() == GRID_CELLS,
        cleared_upto(h, rows, n).len() == GRID_CELLS,
        forall|k: int|
            0 <= k < GRID_CELLS && (k < n * TETRIS_W || !rows[k / TETRIS_W as int])
                ==> cleared_upto(g, rows, n)[k] == cleared_upto(h, rows, n)[k],
    decreases n,
{
    if n > 0 {
        lemma_cleared_upto_ignores_flagged(g, h, rows, n - 1);
        lemma_cleared_upto(g, rows, n - 1);
        lemma_cleared_upto(h, rows, n - 1);
    }
}

/// Taking the flagged rows out gives the same grid whatever those rows
/// held.
pub proof fn lemma_cleared_ignores_flagged(g: Seq<usize>, h: Seq<usize>, rows: Seq<bool>)
    requires
        g.len() == GRID_CELLS,
        h.len() == GRID_CELLS,
        rows.len() == TETRIS_H,
        forall|k: int| 0 <= k < GRID_CELLS && !rows[k / TETRIS_W as int] ==> g[k] == h[k],
    ensures
        cleared(g, rows) == cleared(h, rows),
{
    lemma_cleared_upto_ignores_flagged(g, h, rows, TETRIS_H as int);
    assert(cleared(g, rows) =~= cleared(h, rows));
}

/// A whole clear, the animation and then the removal, lowers the number of
/// settled cells by exactly one row's width for each full row that was
/// flagged.
pub proof fn lemma_clear_after_peeling(grid: Seq<usize>, rows: Seq<bool>)
    requires
        grid.len() == GRID_CELLS,
        rows.len() == TETRIS_H,
        forall|y: int| 0 <= y < TETRIS_H && rows[y] ==> row_full(grid, y),
    ensures
        cleared(peeled_from(grid, rows, 0), rows) == cleared(grid, rows),
        settled(cleared(peeled_from(grid, rows, 0), rows)) == settled(grid) - TETRIS_W
            * flagged_in(rows, 0, TETRIS_H as int),
{
    lemma_cleared_ignores_flagged(peeled_from(grid, rows, 0), grid, rows);
    lemma_clear_rows_settled(grid, rows);
}

} // verus!
