//! The playfield: a fixed 10x20 grid of cells, collision testing,
//! line detection and line removal.
//!
//! A cell holds the kind of the piece locked into it, or `None` when
//! empty. Row 0 is the top; rows and columns are addressed as
//! (column `x`, row `y`). Collision follows the spawning rule: cells
//! above the visible top (`y < 0`) are checked against the side walls
//! only, never against board contents or the floor.

use vstd::prelude::*;
use crate::constants::{GRID_HEIGHT, GRID_WIDTH};
use crate::tetromino::{mat_cell, mat_dims, mat_nonempty, rows_view, TetrominoType};

verus! {

broadcast use vstd::seq_lib::lemma_seq_contains_after_push;

/// One cell of the playfield: the kind locked into it, or empty.
pub type Cell = Option<TetrominoType>;

/// A well-formed playfield: `GRID_HEIGHT` rows of `GRID_WIDTH` cells.
pub open spec fn grid_wf(gv: Seq<Seq<Cell>>) -> bool {
    gv.len() == GRID_HEIGHT
        && forall|y: int| 0 <= y < gv.len() ==> (#[trigger] gv[y]).len() == GRID_WIDTH
}

/// Whether the board cell at (column `x`, row `y`) holds a locked piece.
pub open spec fn cell_filled(gv: Seq<Seq<Cell>>, x: int, y: int) -> bool {
    gv[y][x] is Some
}

/// Whether a piece cell at (column `x`, row `y`) is blocked: outside a
/// side wall, below the floor, or on a filled board cell. Cells above
/// the top (`y < 0`) are only checked against the side walls.
pub open spec fn cell_blocked(gv: Seq<Seq<Cell>>, x: int, y: int) -> bool {
    x < 0 || x >= GRID_WIDTH || y >= GRID_HEIGHT || (y >= 0 && cell_filled(gv, x, y))
}

/// Whether a matrix placed with its top-left at (column `x`, row `y`)
/// collides: some occupied matrix cell is blocked.
pub open spec fn mat_collides(gv: Seq<Seq<Cell>>, m: Seq<Seq<u8>>, x: int, y: int) -> bool {
    exists|i: int, j: int|
        0 <= i < 4 && 0 <= j < 4 && mat_cell(m, i, j) && cell_blocked(gv, x + j, y + i)
}

/// A non-colliding placement of a non-blank matrix keeps the origin
/// near the board: some occupied cell lies between the walls and above
/// the floor, which bounds where the matrix's corner can be.
pub proof fn lemma_free_placement_bounds(gv: Seq<Seq<Cell>>, m: Seq<Seq<u8>>, x: int, y: int)
    requires
        mat_nonempty(m),
        !mat_collides(gv, m, x, y),
    ensures
        -3 <= x <= GRID_WIDTH - 1,
        y <= GRID_HEIGHT - 1,
{
    let (i, j): (int, int) = choose|i: int, j: int|
        0 <= i < 4 && 0 <= j < 4 && mat_cell(m, i, j);
    assert(!cell_blocked(gv, x + j, y + i));
}

/// For a placement that lies entirely above the visible top, collision
/// depends on the columns alone: every occupied cell escapes the floor
/// and the board contents, so only a side wall can block it.
pub proof fn lemma_above_top_collision(gv: Seq<Seq<Cell>>, m: Seq<Seq<u8>>, x: int, y: int)
    requires
        y <= -4,
    ensures
        mat_collides(gv, m, x, y) == mat_side_blocked(m, x),
{
    if mat_collides(gv, m, x, y) {
        let (i, j): (int, int) = choose|i: int, j: int|
            0 <= i < 4 && 0 <= j < 4 && mat_cell(m, i, j) && cell_blocked(gv, x + j, y + i);
        assert(y + i < 0);
        assert(x + j < 0 || x + j >= GRID_WIDTH);
    }
    if mat_side_blocked(m, x) {
        let (i, j): (int, int) = choose|i: int, j: int|
            0 <= i < 4 && 0 <= j < 4 && mat_cell(m, i, j)
                && (x + j < 0 || x + j >= GRID_WIDTH);
        assert(cell_blocked(gv, x + j, y + i));
    }
}

/// Whether some occupied cell of the matrix falls outside a side wall
/// when the matrix's left edge stands at column `x`.
pub open spec fn mat_side_blocked(m: Seq<Seq<u8>>, x: int) -> bool {
    exists|i: int, j: int|
        0 <= i < 4 && 0 <= j < 4 && mat_cell(m, i, j)
            && (x + j < 0 || x + j >= GRID_WIDTH)
}

/// Tests a matrix placement against the board. Coordinates are taken
/// as `i64` so that callers may offset `i32` positions without care
/// for overflow.
pub fn shape_collides(grid: &Vec<Vec<Cell>>, shape: &Vec<Vec<u8>>, x: i64, y: i64) -> (r: bool)
    requires
        grid_wf(rows_view(grid@)),
        mat_dims(rows_view(shape@)),
        x + 3 <= i64::MAX,
        y + 3 <= i64::MAX,
    ensures
        r == mat_collides(rows_view(grid@), rows_view(shape@), x as int, y as int),
{
    let ghost gv = rows_view(grid@);
    let ghost m = rows_view(shape@);
    for i in 0..4usize
        invariant
            grid_wf(gv),
            mat_dims(m),
            gv == rows_view(grid@),
            m == rows_view(shape@),
            x + 3 <= i64::MAX,
            y + 3 <= i64::MAX,
            forall|ii: int, jj: int|
                0 <= ii < i && 0 <= jj < 4 && mat_cell(m, ii, jj)
                    ==> !cell_blocked(gv, x + jj, y + ii),
    {
        for j in 0..4usize
            invariant
                grid_wf(gv),
                mat_dims(m),
                gv == rows_view(grid@),
                m == rows_view(shape@),
                0 <= i < 4,
                x + 3 <= i64::MAX,
                y + 3 <= i64::MAX,
                forall|ii: int, jj: int|
                    0 <= ii < i && 0 <= jj < 4 && mat_cell(m, ii, jj)
                        ==> !cell_blocked(gv, x + jj, y + ii),
                forall|jj: int|
                    0 <= jj < j && mat_cell(m, i as int, jj)
                        ==> !cell_blocked(gv, x + jj, y + (i as int)),
        {
            assert(m[i as int] == shape@[i as int]@);
            if shape[i][j] == 1 {
                let cx = x + j as i64;
                let cy = y + i as i64;
                if cx < 0 || cx >= GRID_WIDTH as i64 || cy >= GRID_HEIGHT as i64 {
                    assert(mat_collides(gv, m, x as int, y as int)) by {
                        assert(mat_cell(m, i as int, j as int));
                        assert(cell_blocked(gv, x + j as int, y + i as int));
                    }
                    return true;
                }
                if cy >= 0 {
                    assert(gv[cy as int] == grid@[cy as int]@);
                    if grid[cy as usize][cx as usize].is_some() {
                        assert(mat_collides(gv, m, x as int, y as int)) by {
                            assert(mat_cell(m, i as int, j as int));
                            assert(cell_filled(gv, cx as int, cy as int));
                        }
                        return true;
                    }
                }
                assert(!cell_blocked(gv, x + j as int, y + i as int));
            } else {
                assert(!mat_cell(m, i as int, j as int));
            }
        }
    }
    false
}

/// Whether every cell of row `y` holds a locked piece.
pub open spec fn row_full(gv: Seq<Seq<Cell>>, y: int) -> bool {
    forall|x: int| 0 <= x < GRID_WIDTH ==> cell_filled(gv, x, y)
}

/// Whether a sequence of row indices is strictly increasing.
pub open spec fn rows_sorted(rows: Seq<usize>) -> bool {
    forall|a: int, b: int| 0 <= a < b < rows.len() ==> rows[a] < rows[b]
}

/// Entries of a strictly increasing sequence grow at least as fast as
/// their positions.
pub proof fn lemma_sorted_rows_lower(rows: Seq<usize>, i: int)
    requires
        rows_sorted(rows),
        0 <= i < rows.len(),
    ensures
        rows[i] >= i,
    decreases i,
{
    if i > 0 {
        lemma_sorted_rows_lower(rows, i - 1);
    }
}

/// A strictly increasing sequence of row indices below the board's
/// height has at most `GRID_HEIGHT` entries.
pub proof fn lemma_sorted_rows_len(rows: Seq<usize>)
    requires
        rows_sorted(rows),
        forall|k: int| 0 <= k < rows.len() ==> rows[k] < GRID_HEIGHT,
    ensures
        rows.len() <= GRID_HEIGHT,
{
    if rows.len() > GRID_HEIGHT {
        lemma_sorted_rows_lower(rows, GRID_HEIGHT as int);
    }
}

/// Returns exactly the indices of the full rows, in increasing order.
pub fn find_full_rows(grid: &Vec<Vec<Cell>>) -> (rows: Vec<usize>)
    requires
        grid_wf(rows_view(grid@)),
    ensures
        rows_sorted(rows@),
        forall|k: int| 0 <= k < rows@.len() ==> rows@[k] < GRID_HEIGHT,
        forall|y: int| 0 <= y < GRID_HEIGHT
            ==> (rows@.contains(y as usize) <==> row_full(rows_view(grid@), y)),
{
    let ghost gv = rows_view(grid@);
    let mut rows: Vec<usize> = Vec::new();
    for y in 0..GRID_HEIGHT
        invariant
            grid_wf(gv),
            gv == rows_view(grid@),
            rows_sorted(rows@),
            forall|k: int| 0 <= k < rows@.len() ==> rows@[k] < y,
            forall|yy: int| 0 <= yy < y
                ==> (rows@.contains(yy as usize) <==> row_full(gv, yy)),
    {
        assert(gv[y as int] == grid@[y as int]@);
        let mut full = true;
        for x in 0..GRID_WIDTH
            invariant
                grid_wf(gv),
                gv == rows_view(grid@),
                0 <= y < GRID_HEIGHT,
                gv[y as int] == grid@[y as int]@,
                full == (forall|xx: int| 0 <= xx < x ==> cell_filled(gv, xx, y as int)),
        {
            if grid[y][x].is_none() {
                assert(!cell_filled(gv, x as int, y as int));
                full = false;
            }
        }
        let ghost prev = rows@;
        if full {
            rows.push(y);
            assert(rows@.contains(y as usize));
        } else {
            assert(!row_full(gv, y as int));
            assert(forall|k: int| 0 <= k < rows@.len() ==> rows@[k] != y as usize);
            assert(!rows@.contains(y as usize));
        }
        assert(forall|yy: int| 0 <= yy < y
            ==> ((#[trigger] rows@.contains(yy as usize)) <==> prev.contains(yy as usize)));
    }
    rows
}

/// On a board whose cells are all filled, every row is full; on a
/// board whose cells are all empty, no row is.
pub proof fn lemma_full_rows_extremes(gv: Seq<Seq<Cell>>)
    requires
        grid_wf(gv),
    ensures
        (forall|x: int, y: int| 0 <= x < GRID_WIDTH && 0 <= y < GRID_HEIGHT
            ==> cell_filled(gv, x, y))
            ==> (forall|y: int| 0 <= y < GRID_HEIGHT ==> row_full(gv, y)),
        (forall|x: int, y: int| 0 <= x < GRID_WIDTH && 0 <= y < GRID_HEIGHT
            ==> !cell_filled(gv, x, y))
            ==> (forall|y: int| 0 <= y < GRID_HEIGHT ==> !row_full(gv, y)),
{
    if forall|x: int, y: int| 0 <= x < GRID_WIDTH && 0 <= y < GRID_HEIGHT
        ==> !cell_filled(gv, x, y) {
        assert forall|y: int| 0 <= y < GRID_HEIGHT implies !row_full(gv, y) by {
            assert(!cell_filled(gv, 0, y));
        }
    }
}

/// Whether a matrix whose top-left corner stands at (`px`, `py`)
/// occupies the absolute cell (column `x`, row `y`).
pub open spec fn mat_covers(m: Seq<Seq<u8>>, px: int, py: int, x: int, y: int) -> bool {
    exists|i: int, j: int|
        0 <= i < 4 && 0 <= j < 4 && mat_cell(m, i, j) && x == px + j && y == py + i
}

/// Like [`mat_covers`], restricted to the first `n` matrix entries in
/// row-major order; used to describe a partially applied lock.
pub open spec fn mat_covers_upto(
    m: Seq<Seq<u8>>, px: int, py: int, x: int, y: int, n: int,
) -> bool {
    exists|i: int, j: int|
        0 <= i < 4 && 0 <= j < 4 && 4 * i + j < n && mat_cell(m, i, j)
            && x == px + j && y == py + i
}

/// The board after a matrix is locked into it at (`px`, `py`) with tag
/// `t`: covered cells inside the board take `t`, everything else is
/// unchanged, and cells outside the board are silently dropped.
pub open spec fn locked_grid(
    gv: Seq<Seq<Cell>>, m: Seq<Seq<u8>>, px: int, py: int, t: TetrominoType,
) -> Seq<Seq<Cell>> {
    Seq::new(gv.len(), |y: int| Seq::new(gv[y].len(), |x: int|
        if mat_covers(m, px, py, x, y) { Some(t) } else { gv[y][x] }))
}

/// The board after only the first `n` matrix entries, in row-major
/// order, have been locked; the intermediate states of [`lock_cells`].
pub open spec fn partial_locked_grid(
    gv: Seq<Seq<Cell>>, m: Seq<Seq<u8>>, px: int, py: int, t: TetrominoType, n: int,
) -> Seq<Seq<Cell>> {
    Seq::new(gv.len(), |y: int| Seq::new(gv[y].len(), |x: int|
        if mat_covers_upto(m, px, py, x, y, n) { Some(t) } else { gv[y][x] }))
}

/// Processing one more matrix entry changes nothing about a board
/// cell the entry does not write: coverage up to `n + 1` equals
/// coverage up to `n` there.
proof fn lemma_covers_upto_step(m: Seq<Seq<u8>>, px: int, py: int, x: int, y: int, n: int)
    requires
        0 <= n < 16,
        !(mat_cell(m, n / 4, n % 4) && x == px + n % 4 && y == py + n / 4),
    ensures
        mat_covers_upto(m, px, py, x, y, n + 1) == mat_covers_upto(m, px, py, x, y, n),
{
    if mat_covers_upto(m, px, py, x, y, n + 1) {
        let (i, j): (int, int) = choose|i: int, j: int|
            0 <= i < 4 && 0 <= j < 4 && 4 * i + j < n + 1 && mat_cell(m, i, j)
                && x == px + j && y == py + i;
        if 4 * i + j == n {
            assert(i == n / 4 && j == n % 4);
            assert(false);
        }
        assert(mat_covers_upto(m, px, py, x, y, n));
    }
}

/// Locking a piece that covers no cell inside the board leaves every
/// board cell unchanged: writes outside the bounds are no-ops.
pub proof fn lemma_lock_outside_leaves_board(
    gv: Seq<Seq<Cell>>, m: Seq<Seq<u8>>, px: int, py: int, t: TetrominoType,
)
    requires
        grid_wf(gv),
        forall|x: int, y: int| 0 <= x < GRID_WIDTH && 0 <= y < GRID_HEIGHT
            ==> !mat_covers(m, px, py, x, y),
    ensures
        locked_grid(gv, m, px, py, t) == gv,
{
    assert(locked_grid(gv, m, px, py, t) =~~= gv);
}

/// Writes tag `t` into every board cell the matrix covers, skipping
/// cells that lie outside the board.
pub fn lock_cells(
    grid: &mut Vec<Vec<Cell>>, shape: &Vec<Vec<u8>>, px: i32, py: i32, t: TetrominoType,
)
    requires
        grid_wf(rows_view(old(grid)@)),
        mat_dims(rows_view(shape@)),
    ensures
        rows_view(final(grid)@)
            == locked_grid(rows_view(old(grid)@), rows_view(shape@), px as int, py as int, t),
        grid_wf(rows_view(final(grid)@)),
{
    let ghost gv0 = rows_view(old(grid)@);
    let ghost m = rows_view(shape@);
    proof {
        assert(rows_view(grid@) =~~= partial_locked_grid(gv0, m, px as int, py as int, t, 0));
    }
    for n in 0..16usize
        invariant
            grid_wf(rows_view(grid@)),
            grid_wf(gv0),
            mat_dims(m),
            gv0 == rows_view(old(grid)@),
            m == rows_view(shape@),
            rows_view(grid@) == partial_locked_grid(gv0, m, px as int, py as int, t, n as int),
    {
        let ghost cur = rows_view(grid@);
        let i = n / 4;
        let j = n % 4;
        assert(0 <= i < 4 && 0 <= j < 4 && 4 * i + j == n);
        assert(m[i as int] == shape@[i as int]@);
        if shape[i][j] == 1 {
            let cx = px as i64 + j as i64;
            let cy = py as i64 + i as i64;
            if 0 <= cx && cx < GRID_WIDTH as i64 && 0 <= cy && cy < GRID_HEIGHT as i64 {
                assert(rows_view(grid@)[cy as int] == grid@[cy as int]@);
                assert(grid@[cy as int]@.len() == GRID_WIDTH);
                grid[cy as usize][cx as usize] = Some(t);
                proof {
                    let cur2 = rows_view(grid@);
                    assert(cur2[cy as int][cx as int] == Some::<TetrominoType>(t));
                    assert(forall|y: int| 0 <= y < GRID_HEIGHT && y != cy as int
                        ==> cur2[y] == cur[y]);
                    assert(forall|x: int| 0 <= x < GRID_WIDTH && x != cx as int
                        ==> cur2[cy as int][x] == cur[cy as int][x]);
                    assert(mat_covers_upto(m, px as int, py as int, cx as int, cy as int, n + 1))
                        by {
                        assert(mat_cell(m, i as int, j as int));
                    }
                    assert forall|x: int, y: int|
                        0 <= x < GRID_WIDTH && 0 <= y < GRID_HEIGHT
                            && !(x == cx as int && y == cy as int) implies
                        (mat_covers_upto(m, px as int, py as int, x, y, n + 1)
                            == mat_covers_upto(m, px as int, py as int, x, y, n as int)) by {
                        lemma_covers_upto_step(m, px as int, py as int, x, y, n as int);
                    }
                    assert(rows_view(grid@)
                        =~~= partial_locked_grid(gv0, m, px as int, py as int, t, n + 1));
                }
            } else {
                proof {
                    assert forall|x: int, y: int|
                        0 <= x < GRID_WIDTH && 0 <= y < GRID_HEIGHT implies
                        (mat_covers_upto(m, px as int, py as int, x, y, n + 1)
                            == mat_covers_upto(m, px as int, py as int, x, y, n as int)) by {
                        lemma_covers_upto_step(m, px as int, py as int, x, y, n as int);
                    }
                    assert(rows_view(grid@)
                        =~~= partial_locked_grid(gv0, m, px as int, py as int, t, n + 1));
                }
            }
        } else {
            proof {
                assert forall|x: int, y: int|
                    0 <= x < GRID_WIDTH && 0 <= y < GRID_HEIGHT implies
                    (mat_covers_upto(m, px as int, py as int, x, y, n + 1)
                        == mat_covers_upto(m, px as int, py as int, x, y, n as int)) by {
                    lemma_covers_upto_step(m, px as int, py as int, x, y, n as int);
                }
                assert(rows_view(grid@)
                    =~~= partial_locked_grid(gv0, m, px as int, py as int, t, n + 1));
            }
        }
    }
    proof {
        assert forall|x: int, y: int| 0 <= x < GRID_WIDTH && 0 <= y < GRID_HEIGHT implies
            (mat_covers_upto(m, px as int, py as int, x, y, 16)
                == mat_covers(m, px as int, py as int, x, y)) by {
            if mat_covers(m, px as int, py as int, x, y) {
                let (i2, j2): (int, int) = choose|i2: int, j2: int|
                    0 <= i2 < 4 && 0 <= j2 < 4 && mat_cell(m, i2, j2)
                        && x == px + j2 && y == py + i2;
                assert(4 * i2 + j2 < 16);
                assert(mat_covers_upto(m, px as int, py as int, x, y, 16));
            }
        }
        assert(rows_view(grid@) =~~= locked_grid(gv0, m, px as int, py as int, t));
    }
}

/// An empty board row: `GRID_WIDTH` empty cells.
pub open spec fn empty_row() -> Seq<Cell> {
    Seq::new(GRID_WIDTH as nat, |x: int| None::<TetrominoType>)
}

/// The rows among the first `n` of the board whose indices are not
/// listed in `rows`, in their original order.
pub open spec fn kept_rows_upto(gv: Seq<Seq<Cell>>, rows: Seq<usize>, n: int) -> Seq<Seq<Cell>>
    decreases n,
{
    if n <= 0 {
        Seq::empty()
    } else {
        kept_rows_upto(gv, rows, n - 1)
            + if rows.contains((n - 1) as usize) { Seq::empty() } else { seq![gv[n - 1]] }
    }
}

/// How many of the first `n` row indices are listed in `rows`.
pub open spec fn num_removed_upto(rows: Seq<usize>, n: int) -> int
    decreases n,
{
    if n <= 0 {
        0
    } else {
        num_removed_upto(rows, n - 1) + if rows.contains((n - 1) as usize) { 1int } else { 0int }
    }
}

/// The board after the listed rows are removed: as many empty rows on
/// top as were removed, then the kept rows in their original order.
pub open spec fn cleared_grid(gv: Seq<Seq<Cell>>, rows: Seq<usize>) -> Seq<Seq<Cell>> {
    Seq::new(rows.len(), |i: int| empty_row()) + kept_rows_upto(gv, rows, gv.len() as int)
}

/// Keeping and removing partition the first `n` rows.
pub proof fn lemma_kept_len(gv: Seq<Seq<Cell>>, rows: Seq<usize>, n: int)
    requires
        0 <= n,
    ensures
        kept_rows_upto(gv, rows, n).len() == n - num_removed_upto(rows, n),
        0 <= num_removed_upto(rows, n) <= n,
    decreases n,
{
    if n > 0 {
        lemma_kept_len(gv, rows, n - 1);
    }
}

/// A kept row `y` stands in the kept sequence at position
/// `y - num_removed_upto(rows, y)`, unchanged.
pub proof fn lemma_kept_index(gv: Seq<Seq<Cell>>, rows: Seq<usize>, n: int, y: int)
    requires
        0 <= y < n,
        !rows.contains(y as usize),
    ensures
        0 <= y - num_removed_upto(rows, y) < kept_rows_upto(gv, rows, n).len(),
        kept_rows_upto(gv, rows, n)[y - num_removed_upto(rows, y)] == gv[y],
    decreases n,
{
    lemma_kept_len(gv, rows, y);
    lemma_kept_len(gv, rows, n);
    if n - 1 == y {
        lemma_kept_len(gv, rows, n - 1);
    } else {
        lemma_kept_index(gv, rows, n - 1, y);
        lemma_kept_len(gv, rows, n - 1);
    }
}

/// Adding one more listed index to `rows` raises the count by one
/// exactly when the index is new and among the first `n`.
proof fn lemma_num_removed_push(rows: Seq<usize>, r: usize, n: int)
    requires
        !rows.contains(r),
        n <= usize::MAX,
    ensures
        num_removed_upto(rows.push(r), n)
            == num_removed_upto(rows, n) + if r < n { 1int } else { 0int },
    decreases n,
{
    if n > 0 {
        lemma_num_removed_push(rows, r, n - 1);
    }
}

/// An empty list of row indices counts nothing.
proof fn lemma_num_removed_empty(rows: Seq<usize>, n: int)
    requires
        rows.len() == 0,
    ensures
        num_removed_upto(rows, n) == 0,
    decreases n,
{
    if n > 0 {
        lemma_num_removed_empty(rows, n - 1);
    }
}

/// A duplicate-free list of row indices below `n` is counted in full.
pub proof fn lemma_num_removed_total(rows: Seq<usize>, n: int)
    requires
        rows.no_duplicates(),
        forall|k: int| 0 <= k < rows.len() ==> rows[k] < n,
        n <= usize::MAX,
    ensures
        num_removed_upto(rows, n) == rows.len(),
    decreases rows.len(),
{
    if rows.len() == 0 {
        lemma_num_removed_empty(rows, n);
    } else {
        let rest = rows.drop_last();
        let r = rows.last();
        assert(rows =~= rest.push(r));
        assert(!rest.contains(r)) by {
            if rest.contains(r) {
                let k = choose|k: int| 0 <= k < rest.len() && rest[k] == r;
                assert(rows[k] == rows[rows.len() - 1]);
            }
        }
        assert(forall|k: int| 0 <= k < rest.len() ==> rest[k] == rows[k]);
        assert(rest.no_duplicates());
        assert(r == rows[rows.len() - 1] && r < n);
        lemma_num_removed_total(rest, n);
        lemma_num_removed_push(rest, r, n);
    }
}

/// A strictly increasing index list has no duplicates.
pub proof fn lemma_sorted_rows_distinct(rows: Seq<usize>)
    requires
        rows_sorted(rows),
    ensures
        rows.no_duplicates(),
{
    assert forall|a: int, b: int| 0 <= a < rows.len() && 0 <= b < rows.len() && a != b
        implies rows[a] != rows[b] by {
        if a < b {
            assert(rows[a] < rows[b]);
        } else {
            assert(rows[b] < rows[a]);
        }
    }
}

/// How many of the listed rows lie below row `y` (at larger indices),
/// provided `y` itself is not listed.
pub open spec fn removed_below(rows: Seq<usize>, y: int) -> int {
    rows.len() - num_removed_upto(rows, y)
}

/// Clearing rows keeps the board's height, and the cleared rows are
/// replaced by empty rows at the top.
pub proof fn lemma_cleared_grid_shape(gv: Seq<Seq<Cell>>, rows: Seq<usize>)
    requires
        grid_wf(gv),
        rows_sorted(rows),
        forall|k: int| 0 <= k < rows.len() ==> rows[k] < GRID_HEIGHT,
    ensures
        cleared_grid(gv, rows).len() == gv.len(),
        forall|i: int| 0 <= i < rows.len() ==> cleared_grid(gv, rows)[i] == empty_row(),
{
    lemma_sorted_rows_distinct(rows);
    lemma_num_removed_total(rows, gv.len() as int);
    lemma_kept_len(gv, rows, gv.len() as int);
}

/// A row that is not cleared reappears, with its contents unchanged,
/// exactly `removed_below` positions further down.
pub proof fn lemma_cleared_grid_shift(gv: Seq<Seq<Cell>>, rows: Seq<usize>, y: int)
    requires
        grid_wf(gv),
        rows_sorted(rows),
        forall|k: int| 0 <= k < rows.len() ==> rows[k] < GRID_HEIGHT,
        0 <= y < GRID_HEIGHT,
        !rows.contains(y as usize),
    ensures
        0 <= y + removed_below(rows, y) < cleared_grid(gv, rows).len(),
        cleared_grid(gv, rows)[y + removed_below(rows, y)] == gv[y],
{
    lemma_kept_index(gv, rows, gv.len() as int, y);
    lemma_kept_len(gv, rows, y);
    assert(cleared_grid(gv, rows)[rows.len() + (y - num_removed_upto(rows, y))]
        == kept_rows_upto(gv, rows, gv.len() as int)[y - num_removed_upto(rows, y)]);
}

/// Builds one empty board row.
fn empty_row_vec() -> (r: Vec<Cell>)
    ensures
        r@ == empty_row(),
{
    let mut r: Vec<Cell> = Vec::new();
    for x in 0..GRID_WIDTH
        invariant
            r@.len() == x,
            forall|xx: int| 0 <= xx < x ==> r@[xx] is None,
    {
        r.push(None);
    }
    proof {
        assert(r@ =~= empty_row());
    }
    r
}

/// Copies a row of cells.
fn copy_row(row: &Vec<Cell>) -> (r: Vec<Cell>)
    ensures
        r@ == row@,
{
    let mut r: Vec<Cell> = Vec::new();
    for x in 0..row.len()
        invariant
            r@.len() == x,
            forall|xx: int| 0 <= xx < x ==> r@[xx] == row@[xx],
    {
        r.push(row[x]);
    }
    proof {
        assert(r@ =~= row@);
    }
    r
}

/// Whether the list of row indices holds `y`.
fn rows_contain(rows: &Vec<usize>, y: usize) -> (r: bool)
    ensures
        r == rows@.contains(y),
{
    for k in 0..rows.len()
        invariant
            forall|kk: int| 0 <= kk < k ==> rows@[kk] != y,
    {
        if rows[k] == y {
            return true;
        }
    }
    assert(!rows@.contains(y));
    false
}

/// Removes the listed rows and inserts that many empty rows at the
/// top, shifting everything above a removed row one step down per
/// removal.
pub fn remove_rows(grid: &mut Vec<Vec<Cell>>, rows: &Vec<usize>)
    requires
        grid_wf(rows_view(old(grid)@)),
        rows_sorted(rows@),
        forall|k: int| 0 <= k < rows@.len() ==> rows@[k] < GRID_HEIGHT,
    ensures
        rows_view(final(grid)@) == cleared_grid(rows_view(old(grid)@), rows@),
        grid_wf(rows_view(final(grid)@)),
{
    let ghost gv0 = rows_view(old(grid)@);
    let ghost pad = Seq::new(rows@.len(), |i: int| empty_row());
    let mut out: Vec<Vec<Cell>> = Vec::new();
    let k = rows.len();
    for i in 0..k
        invariant
            k == rows@.len(),
            out@.len() == i,
            forall|ii: int| 0 <= ii < i ==> #[trigger] out@[ii]@ == empty_row(),
    {
        out.push(empty_row_vec());
    }
    proof {
        assert(rows_view(out@) =~~= pad + kept_rows_upto(gv0, rows@, 0));
    }
    for y in 0..GRID_HEIGHT
        invariant
            grid_wf(gv0),
            gv0 == rows_view(grid@),
            pad == Seq::new(rows@.len(), |i: int| empty_row()),
            rows_view(out@) == pad + kept_rows_upto(gv0, rows@, y as int),
    {
        let ghost prev = rows_view(out@);
        if !rows_contain(rows, y) {
            assert(gv0[y as int] == grid@[y as int]@);
            let row = copy_row(&grid[y]);
            out.push(row);
            proof {
                assert(rows_view(out@) =~~= prev.push(gv0[y as int]));
                assert(kept_rows_upto(gv0, rows@, y + 1)
                    =~= kept_rows_upto(gv0, rows@, y as int).push(gv0[y as int]));
                assert(rows_view(out@) =~~= pad + kept_rows_upto(gv0, rows@, y + 1));
            }
        } else {
            proof {
                assert(kept_rows_upto(gv0, rows@, y + 1)
                    =~= kept_rows_upto(gv0, rows@, y as int));
            }
        }
    }
    *grid = out;
    proof {
        assert(rows_view(grid@) =~~= cleared_grid(gv0, rows@));
        lemma_cleared_grid_shape(gv0, rows@);
        lemma_sorted_rows_distinct(rows@);
        lemma_num_removed_total(rows@, gv0.len() as int);
        lemma_kept_len(gv0, rows@, gv0.len() as int);
        assert forall|y: int| 0 <= y < rows_view(grid@).len()
            implies (#[trigger] rows_view(grid@)[y]).len() == GRID_WIDTH by {
            if y < rows@.len() {
                assert(rows_view(grid@)[y] == empty_row());
            } else {
                lemma_kept_row_width(gv0, rows@, gv0.len() as int, y - rows@.len());
            }
        }
    }
}

/// Every kept row keeps the board's width.
proof fn lemma_kept_row_width(gv: Seq<Seq<Cell>>, rows: Seq<usize>, n: int, i: int)
    requires
        grid_wf(gv),
        0 <= n <= gv.len(),
        0 <= i < kept_rows_upto(gv, rows, n).len(),
    ensures
        kept_rows_upto(gv, rows, n)[i].len() == GRID_WIDTH,
    decreases n,
{
    if n > 0 {
        let prefix = kept_rows_upto(gv, rows, n - 1);
        if i < prefix.len() {
            lemma_kept_row_width(gv, rows, n - 1, i);
        }
    }
}

} // verus!
