use crate::render::{
    border_line, box_lines, box_marks, box_row, cell_char, grid_cols, grid_rectangular, join_lines,
    row_chars, row_major,
};
use crate::walk::{
    clamp_pos, move_code, num_moves, pos_of, position, raw_step, saturated, stored_count, visits,
    walk_outcome,
};
use vstd::prelude::*;

verus! {

/// The walk is a function of its inputs: two outcomes of the same
/// fingerprint and dimensions agree in every counter, the start and the end.
pub proof fn lemma_walk_deterministic(
    fp: Seq<u8>,
    rows: int,
    cols: int,
    g1: Seq<Vec<u8>>,
    s1: (usize, usize),
    e1: (usize, usize),
    g2: Seq<Vec<u8>>,
    s2: (usize, usize),
    e2: (usize, usize),
)
    requires
        walk_outcome(fp, rows, cols, g1, s1, e1),
        walk_outcome(fp, rows, cols, g2, s2, e2),
    ensures
        g1.len() == g2.len(),
        forall|r: int| 0 <= r < rows ==> #[trigger] g1[r]@ == g2[r]@,
        s1 == s2,
        e1 == e2,
{
    assert forall|r: int| 0 <= r < rows implies #[trigger] g1[r]@ == g2[r]@ by {
        assert(g1[r]@ =~= g2[r]@);
    }
}

/// After any number of moves the walk stands inside the grid.
pub proof fn lemma_position_in_bounds(fp: Seq<u8>, rows: int, cols: int, n: nat)
    requires
        rows >= 1,
        cols >= 1,
    ensures
        0 <= position(fp, rows, cols, n).0 < rows,
        0 <= position(fp, rows, cols, n).1 < cols,
    decreases n,
{
    if n > 0 {
        lemma_position_in_bounds(fp, rows, cols, (n - 1) as nat);
    }
}

/// Each move is one diagonal step, one row and one column, before it is
/// clamped into the grid.
pub proof fn lemma_diagonal_step(fp: Seq<u8>, rows: int, cols: int, k: nat)
    requires
        1 <= k <= num_moves(fp),
    ensures
        ({
            let p = position(fp, rows, cols, (k - 1) as nat);
            let q = raw_step(p, move_code(fp, k - 1));
            &&& q.0 - p.0 == 1 || q.0 - p.0 == -1
            &&& q.1 - p.1 == 1 || q.1 - p.1 == -1
            &&& position(fp, rows, cols, k) == clamp_pos(q, rows, cols)
        }),
{
}

/// A counter never exceeds 255, and one whose cell was visited 255 times or
/// more holds exactly 255.
pub proof fn lemma_saturation(fp: Seq<u8>, rows: int, cols: int, r: int, c: int)
    ensures
        0 <= stored_count(fp, rows, cols, r, c) <= 255,
        visits(fp, rows, cols, num_moves(fp), r, c) >= 255 ==> stored_count(fp, rows, cols, r, c)
            == 255,
{
}

/// The visits of the first `n` moves to columns `0..k` of row `r`.
pub open spec fn row_visits(fp: Seq<u8>, rows: int, cols: int, n: nat, r: int, k: int) -> int
    decreases k,
{
    if k <= 0 {
        0
    } else {
        row_visits(fp, rows, cols, n, r, k - 1) + visits(fp, rows, cols, n, r, k - 1)
    }
}

/// The visits of the first `n` moves to rows `0..k`.
pub open spec fn total_visits(fp: Seq<u8>, rows: int, cols: int, n: nat, k: int) -> int
    decreases k,
{
    if k <= 0 {
        0
    } else {
        total_visits(fp, rows, cols, n, k - 1) + row_visits(fp, rows, cols, n, k - 1, cols)
    }
}

/// The sum of the counters in columns `0..k` of row `r`.
pub open spec fn row_sum(grid: Seq<Vec<u8>>, r: int, k: int) -> int
    decreases k,
{
    if k <= 0 {
        0
    } else {
        row_sum(grid, r, k - 1) + grid[r]@[k - 1]
    }
}

/// The sum of the counters in rows `0..k`, of `cols` columns each.
pub open spec fn grid_sum(grid: Seq<Vec<u8>>, k: int, cols: int) -> int
    decreases k,
{
    if k <= 0 {
        0
    } else {
        grid_sum(grid, k - 1, cols) + row_sum(grid, k - 1, cols)
    }
}

proof fn lemma_row_visits_zero(fp: Seq<u8>, rows: int, cols: int, r: int, k: int)
    ensures
        row_visits(fp, rows, cols, 0, r, k) == 0,
    decreases k,
{
    if k > 0 {
        lemma_row_visits_zero(fp, rows, cols, r, k - 1);
    }
}

proof fn lemma_total_visits_zero(fp: Seq<u8>, rows: int, cols: int, k: int)
    ensures
        total_visits(fp, rows, cols, 0, k) == 0,
    decreases k,
{
    if k > 0 {
        lemma_total_visits_zero(fp, rows, cols, k - 1);
        lemma_row_visits_zero(fp, rows, cols, k - 1, cols);
    }
}

proof fn lemma_row_visits_step(fp: Seq<u8>, rows: int, cols: int, n: nat, r: int, k: int)
    requires
        n >= 1,
        k >= 0,
    ensures
        ({
            let p = position(fp, rows, cols, n);
            row_visits(fp, rows, cols, n, r, k) == row_visits(fp, rows, cols, (n - 1) as nat, r, k)
                + if p.0 == r && 0 <= p.1 < k {
                1int
            } else {
                0int
            }
        }),
    decreases k,
{
    if k > 0 {
        lemma_row_visits_step(fp, rows, cols, n, r, k - 1);
    }
}

proof fn lemma_total_visits_step(fp: Seq<u8>, rows: int, cols: int, n: nat, k: int)
    requires
        n >= 1,
        k >= 0,
        rows >= 1,
        cols >= 1,
    ensures
        ({
            let p = position(fp, rows, cols, n);
            total_visits(fp, rows, cols, n, k) == total_visits(fp, rows, cols, (n - 1) as nat, k)
                + if 0 <= p.0 < k {
                1int
            } else {
                0int
            }
        }),
    decreases k,
{
    lemma_position_in_bounds(fp, rows, cols, n);
    if k > 0 {
        lemma_total_visits_step(fp, rows, cols, n, k - 1);
        lemma_row_visits_step(fp, rows, cols, n, k - 1, cols);
    }
}

/// Each move lands on exactly one cell: over the whole grid, the first `n`
/// moves make `n` visits.
pub proof fn lemma_visits_total(fp: Seq<u8>, rows: int, cols: int, n: nat)
    requires
        rows >= 1,
        cols >= 1,
    ensures
        total_visits(fp, rows, cols, n, rows) == n,
    decreases n,
{
    if n == 0 {
        lemma_total_visits_zero(fp, rows, cols, rows);
    } else {
        lemma_visits_total(fp, rows, cols, (n - 1) as nat);
        lemma_total_visits_step(fp, rows, cols, n, rows);
        lemma_position_in_bounds(fp, rows, cols, n);
    }
}

proof fn lemma_row_sum_bound(
    fp: Seq<u8>,
    rows: int,
    cols: int,
    grid: Seq<Vec<u8>>,
    s: (usize, usize),
    e: (usize, usize),
    r: int,
    k: int,
)
    requires
        walk_outcome(fp, rows, cols, grid, s, e),
        0 <= r < rows,
        0 <= k <= cols,
    ensures
        row_sum(grid, r, k) <= row_visits(fp, rows, cols, num_moves(fp), r, k),
        (forall|c: int| 0 <= c < cols ==> #[trigger] visits(fp, rows, cols, num_moves(fp), r, c) <= 255)
            ==> row_sum(grid, r, k) == row_visits(fp, rows, cols, num_moves(fp), r, k),
    decreases k,
{
    if k > 0 {
        lemma_row_sum_bound(fp, rows, cols, grid, s, e, r, k - 1);
        assert(grid[r]@[k - 1] == stored_count(fp, rows, cols, r, k - 1));
    }
}

proof fn lemma_grid_sum_bound(
    fp: Seq<u8>,
    rows: int,
    cols: int,
    grid: Seq<Vec<u8>>,
    s: (usize, usize),
    e: (usize, usize),
    k: int,
)
    requires
        walk_outcome(fp, rows, cols, grid, s, e),
        0 <= k <= rows,
        cols >= 0,
    ensures
        grid_sum(grid, k, cols) <= total_visits(fp, rows, cols, num_moves(fp), k),
        (forall|r: int, c: int|
            0 <= r < rows && 0 <= c < cols ==> #[trigger] visits(fp, rows, cols, num_moves(fp), r, c)
                <= 255) ==> grid_sum(grid, k, cols) == total_visits(fp, rows, cols, num_moves(fp), k),
    decreases k,
{
    if k > 0 {
        lemma_grid_sum_bound(fp, rows, cols, grid, s, e, k - 1);
        lemma_row_sum_bound(fp, rows, cols, grid, s, e, k - 1, cols);
    }
}

/// The counters of a walk add up to at most four per fingerprint byte, and
/// to exactly that where no cell was visited more than 255 times.
pub proof fn lemma_move_count(
    fp: Seq<u8>,
    rows: int,
    cols: int,
    grid: Seq<Vec<u8>>,
    start: (usize, usize),
    end: (usize, usize),
)
    requires
        rows >= 1,
        cols >= 1,
        walk_outcome(fp, rows, cols, grid, start, end),
    ensures
        grid_sum(grid, rows, cols) <= 4 * fp.len(),
        (forall|r: int, c: int|
            0 <= r < rows && 0 <= c < cols ==> #[trigger] visits(fp, rows, cols, num_moves(fp), r, c)
                <= 255) ==> grid_sum(grid, rows, cols) == 4 * fp.len(),
{
    lemma_visits_total(fp, rows, cols, num_moves(fp));
    lemma_grid_sum_bound(fp, rows, cols, grid, start, end, rows);
}

/// The box has two lines more than the grid has rows, each two characters
/// longer than a row has columns, and no line holds a newline: the text
/// splits at its newlines into exactly these lines.
pub proof fn lemma_box_shape(grid: Seq<Vec<u8>>, start: (usize, usize), end: (usize, usize))
    requires
        grid_rectangular(grid),
    ensures
        box_lines(grid, start, end).len() == grid.len() + 2,
        forall|i: int|
            0 <= i < grid.len() + 2 ==> (#[trigger] box_lines(grid, start, end)[i]).len()
                == grid_cols(grid) + 2,
        forall|i: int, j: int|
            0 <= i < grid.len() + 2 && 0 <= j < box_lines(grid, start, end)[i].len()
                ==> #[trigger] box_lines(grid, start, end)[i][j] != '\n',
{
    let lines = box_lines(grid, start, end);
    let cols = grid_cols(grid);
    assert forall|i: int| 0 <= i < grid.len() + 2 implies (#[trigger] lines[i]).len() == cols + 2 by {
        if 1 <= i <= grid.len() {
            assert(lines[i] == box_row(grid, start, end, i - 1));
        }
    }
    assert forall|i: int, j: int| 0 <= i < grid.len() + 2 && 0 <= j < lines[i].len() implies #[trigger] lines[i][j]
        != '\n' by {
        if 1 <= i <= grid.len() {
            assert(lines[i] == box_row(grid, start, end, i - 1));
            if 1 <= j <= cols {
                assert(lines[i][j] == row_chars(grid, start, end, box_marks(), i - 1)[j - 1]);
            }
        } else {
            assert(lines[i] == border_line(cols));
        }
    }
}

/// Where the walk ends on its start cell, that cell shows the start mark.
pub proof fn lemma_start_mark_first(
    grid: Seq<Vec<u8>>,
    start: (usize, usize),
    marks: (char, char),
)
    requires
        grid_rectangular(grid),
        start.0 < grid.len(),
        start.1 < grid_cols(grid),
    ensures
        cell_char(grid, start, start, marks, start.0 as int, start.1 as int) == marks.0,
        box_lines(grid, start, start)[start.0 + 1][start.1 + 1] == 'S',
{
    let row = box_lines(grid, start, start)[start.0 + 1];
    assert(row == box_row(grid, start, start, start.0 as int));
    assert(row[start.1 + 1] == row_chars(grid, start, start, box_marks(), start.0 as int)[start.1 as int]);
}

/// Rendering the same grid, start and end twice gives the same text.
pub proof fn lemma_box_render_repeatable(
    grid: Seq<Vec<u8>>,
    start: (usize, usize),
    end: (usize, usize),
    first: Seq<char>,
    second: Seq<char>,
)
    requires
        first == join_lines(box_lines(grid, start, end)),
        second == join_lines(box_lines(grid, start, end)),
    ensures
        first == second,
{
}

proof fn lemma_rows_flatten(
    grid: Seq<Vec<u8>>,
    start: (usize, usize),
    end: (usize, usize),
    marks: (char, char),
    k: int,
)
    requires
        grid_rectangular(grid),
        0 <= k <= grid.len(),
    ensures
        ({
            let rows_seq = Seq::new(grid.len(), |r: int| row_chars(grid, start, end, marks, r));
            let flat = rows_seq.take(k).flatten_alt();
            &&& flat.len() == k * grid_cols(grid)
            &&& forall|r: int, c: int|
                0 <= r < k && 0 <= c < grid_cols(grid) ==> #[trigger] flat[r * grid_cols(grid) + c]
                    == cell_char(grid, start, end, marks, r, c)
        }),
    decreases k,
{
    let rows_seq = Seq::new(grid.len(), |r: int| row_chars(grid, start, end, marks, r));
    let cols = grid_cols(grid);
    if k > 0 {
        lemma_rows_flatten(grid, start, end, marks, k - 1);
        let prev = rows_seq.take(k - 1).flatten_alt();
        let flat = rows_seq.take(k).flatten_alt();
        assert(rows_seq.take(k).drop_last() =~= rows_seq.take(k - 1));
        assert(flat == prev + rows_seq[k - 1]);
        assert(k * cols == (k - 1) * cols + cols) by (nonlinear_arith);
        assert forall|r: int, c: int| 0 <= r < k && 0 <= c < cols implies #[trigger] flat[r * cols + c]
            == cell_char(grid, start, end, marks, r, c) by {
            if r < k - 1 {
                assert(r * cols + c < (k - 1) * cols) by (nonlinear_arith)
                    requires
                        0 <= r < k - 1,
                        0 <= c < cols,
                ;
                assert(0 <= r * cols) by (nonlinear_arith)
                    requires
                        0 <= r,
                        0 <= cols,
                ;
            } else {
                assert(r * cols == (k - 1) * cols);
            }
        }
    } else {
        assert(rows_seq.take(0) =~= Seq::<Seq<char>>::empty());
    }
}

/// The template renderer's cells come in row-major order: one per grid
/// cell, and cell `(r, c)` at position `r * cols + c`.
pub proof fn lemma_row_major_position(
    grid: Seq<Vec<u8>>,
    start: (usize, usize),
    end: (usize, usize),
    marks: (char, char),
    r: int,
    c: int,
)
    requires
        grid_rectangular(grid),
        0 <= r < grid.len(),
        0 <= c < grid_cols(grid),
    ensures
        row_major(grid, start, end, marks).len() == grid.len() * grid_cols(grid),
        row_major(grid, start, end, marks)[r * grid_cols(grid) + c] == cell_char(
            grid,
            start,
            end,
            marks,
            r,
            c,
        ),
{
    let rows_seq = Seq::new(grid.len(), |i: int| row_chars(grid, start, end, marks, i));
    lemma_rows_flatten(grid, start, end, marks, grid.len() as int);
    assert(rows_seq.take(grid.len() as int) =~= rows_seq);
}

} // verus!
