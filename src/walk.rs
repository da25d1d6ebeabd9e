use vstd::prelude::*;

verus! {

/// The byte `b` with its lowest `2 * j` bits shifted out.
pub open spec fn shifted(b: u8, j: int) -> int
    decreases j,
{
    if j <= 0 {
        b as int
    } else {
        shifted(b, j - 1) / 4
    }
}

/// The two-bit code of move `k`: byte `k / 4`, least significant pair first.
pub open spec fn move_code(fp: Seq<u8>, k: int) -> int {
    shifted(fp[k / 4], k % 4) % 4
}

/// Bit 1 of a code moves down a row, else up; bit 0 moves right a column, else left.
pub open spec fn raw_step(p: (int, int), code: int) -> (int, int) {
    (p.0 + if code / 2 == 1 { 1int } else { -1int }, p.1 + if code % 2 == 1 { 1int } else { -1int })
}

/// `x` clamped into `[0, hi]`.
pub open spec fn clamp(x: int, hi: int) -> int {
    if x < 0 {
        0
    } else if x > hi {
        hi
    } else {
        x
    }
}

pub open spec fn clamp_pos(p: (int, int), rows: int, cols: int) -> (int, int) {
    (clamp(p.0, rows - 1), clamp(p.1, cols - 1))
}

/// The centre cell, where every walk starts.
pub open spec fn center(rows: int, cols: int) -> (int, int) {
    (rows / 2, cols / 2)
}

/// Where the walk stands after its first `n` moves.
pub open spec fn position(fp: Seq<u8>, rows: int, cols: int, n: nat) -> (int, int)
    decreases n,
{
    if n == 0 {
        center(rows, cols)
    } else {
        clamp_pos(
            raw_step(position(fp, rows, cols, (n - 1) as nat), move_code(fp, n - 1)),
            rows,
            cols,
        )
    }
}

/// How many of the first `n` moves end on cell `(r, c)`.
pub open spec fn visits(fp: Seq<u8>, rows: int, cols: int, n: nat, r: int, c: int) -> nat
    decreases n,
{
    if n == 0 {
        0
    } else {
        visits(fp, rows, cols, (n - 1) as nat, r, c) + if position(fp, rows, cols, n) == (r, c) {
            1nat
        } else {
            0nat
        }
    }
}

/// Every byte of the fingerprint gives four moves.
pub open spec fn num_moves(fp: Seq<u8>) -> nat {
    4 * fp.len()
}

/// A visit count as a cell stores it: saturated at 255.
pub open spec fn saturated(v: int) -> int {
    if v > 255 {
        255
    } else {
        v
    }
}

/// What the finished walk stores in cell `(r, c)`.
pub open spec fn stored_count(fp: Seq<u8>, rows: int, cols: int, r: int, c: int) -> int {
    saturated(visits(fp, rows, cols, num_moves(fp), r, c) as int)
}

pub open spec fn pos_of(p: (usize, usize)) -> (int, int) {
    (p.0 as int, p.1 as int)
}

/// A grid of `rows` rows of `cols` counters each.
pub open spec fn grid_shaped(grid: Seq<Vec<u8>>, rows: int, cols: int) -> bool {
    &&& grid.len() == rows
    &&& forall|r: int| 0 <= r < rows ==> (#[trigger] grid[r])@.len() == cols
}

/// `(grid, start, end)` is the outcome of the walk of `fp` over `rows` by `cols`.
pub open spec fn walk_outcome(
    fp: Seq<u8>,
    rows: int,
    cols: int,
    grid: Seq<Vec<u8>>,
    start: (usize, usize),
    end: (usize, usize),
) -> bool {
    &&& grid_shaped(grid, rows, cols)
    &&& forall|r: int, c: int|
        0 <= r < rows && 0 <= c < cols ==> #[trigger] grid[r]@[c] == stored_count(
            fp,
            rows,
            cols,
            r,
            c,
        )
    &&& pos_of(start) == center(rows, cols)
    &&& pos_of(end) == position(fp, rows, cols, num_moves(fp))
}

/// One more visit to a counter, saturating at 255.
pub fn bump_count(count: u8) -> (r: u8)
    ensures
        r == saturated(count + 1),
{
    count.saturating_add(1)
}

/// One step along an axis of extent `dim`: up or down by one, clamped into the axis.
fn step_axis(x: usize, forward: bool, dim: usize) -> (r: usize)
    requires
        x < dim,
    ensures
        r == clamp(x + if forward { 1int } else { -1int }, dim - 1),
{
    if forward {
        if x + 1 >= dim {
            dim - 1
        } else {
            x + 1
        }
    } else {
        if x == 0 {
            0
        } else {
            x - 1
        }
    }
}

/// A grid of `rows` by `cols` zeroed counters.
fn zero_grid(rows: usize, cols: usize) -> (grid: Vec<Vec<u8>>)
    ensures
        grid_shaped(grid@, rows as int, cols as int),
        forall|r: int, c: int| 0 <= r < rows && 0 <= c < cols ==> #[trigger] grid@[r]@[c] == 0,
{
    let mut grid: Vec<Vec<u8>> = Vec::new();
    let mut i: usize = 0;
    while i < rows
        invariant
            i <= rows,
            grid_shaped(grid@, i as int, cols as int),
            forall|r: int, c: int| 0 <= r < i && 0 <= c < cols ==> #[trigger] grid@[r]@[c] == 0,
        decreases rows - i,
    {
        let mut line: Vec<u8> = Vec::new();
        let mut j: usize = 0;
        while j < cols
            invariant
                j <= cols,
                line@.len() == j,
                forall|c: int| 0 <= c < j ==> #[trigger] line@[c] == 0,
            decreases cols - j,
        {
            line.push(0);
            j += 1;
        }
        grid.push(line);
        i += 1;
    }
    grid
}

/// The outcome of the walk of `fingerprint` over a `rows` by `cols` grid: the
/// counters, the start cell and the end cell.
pub fn walk(fingerprint: &[u8], rows: usize, cols: usize) -> (res: (
    Vec<Vec<u8>>,
    (usize, usize),
    (usize, usize),
))
    requires
        rows >= 1,
        cols >= 1,
    ensures
        walk_outcome(fingerprint@, rows as int, cols as int, res.0@, res.1, res.2),
{
    let ghost fp = fingerprint@;
    let mut grid = zero_grid(rows, cols);
    let start = (rows / 2, cols / 2);
    let mut row: usize = rows / 2;
    let mut col: usize = cols / 2;
    let mut i: usize = 0;
    while i < fingerprint.len()
        invariant
            fp == fingerprint@,
            rows >= 1,
            cols >= 1,
            i <= fp.len(),
            row < rows,
            col < cols,
            grid_shaped(grid@, rows as int, cols as int),
            (row as int, col as int) == position(fp, rows as int, cols as int, 4 * i as nat),
            forall|r: int, c: int|
                0 <= r < rows && 0 <= c < cols ==> #[trigger] grid@[r]@[c] == saturated(
                    visits(fp, rows as int, cols as int, 4 * i as nat, r, c) as int,
                ),
        decreases fp.len() - i,
    {
        let mut b: u8 = fingerprint[i];
        let mut j: usize = 0;
        while j < 4
            invariant
                fp == fingerprint@,
                i < fp.len(),
                j <= 4,
                row < rows,
                col < cols,
                b as int == shifted(fp[i as int], j as int),
                grid_shaped(grid@, rows as int, cols as int),
                (row as int, col as int) == position(
                    fp,
                    rows as int,
                    cols as int,
                    (4 * i + j) as nat,
                ),
                forall|r: int, c: int|
                    0 <= r < rows && 0 <= c < cols ==> #[trigger] grid@[r]@[c] == saturated(
                        visits(fp, rows as int, cols as int, (4 * i + j) as nat, r, c) as int,
                    ),
            decreases 4 - j,
        {
            let ghost k: int = 4 * i + j;
            proof {
                assert(k / 4 == i as int && k % 4 == j as int);
                assert(move_code(fp, k) == b % 4);
                assert((b & 1 != 0) == ((b % 4) % 2 == 1)) by (bit_vector);
                assert((b & 2 != 0) == ((b % 4) / 2 == 1)) by (bit_vector);
                assert(b >> 2 == b / 4) by (bit_vector);
            }
            row = step_axis(row, b & 2 != 0, rows);
            col = step_axis(col, b & 1 != 0, cols);
            let ghost before = grid@;
            let count = bump_count(grid[row][col]);
            grid[row][col] = count;
            proof {
                assert((row as int, col as int) == position(fp, rows as int, cols as int, (k + 1) as nat));
                assert forall|r: int, c: int| 0 <= r < rows && 0 <= c < cols implies #[trigger] grid@[r]@[c] == saturated(
                        visits(fp, rows as int, cols as int, (k + 1) as nat, r, c) as int,
                    ) by {
                    assert(before[r]@[c] == saturated(visits(fp, rows as int, cols as int, k as nat, r, c) as int));
                }
                assert forall|r: int| 0 <= r < rows implies (#[trigger] grid@[r])@.len() == cols by {
                    assert(before[r]@.len() == cols);
                }
            }
            b = b >> 2;
            j += 1;
        }
        i += 1;
    }
    (grid, start, (row, col))
}

} // verus!
