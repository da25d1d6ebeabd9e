use crate::walk::pos_of;
use vstd::prelude::*;

verus! {

/// Relies on std's `String::push`, which appends one character.
pub assume_specification[ String::push ](s: &mut String, ch: char)
    ensures
        final(s)@ == old(s)@.push(ch),
;

/// The sixteen display symbols, from "never visited" to "visited fifteen times or more".
pub open spec fn alphabet() -> Seq<char> {
    seq![' ', '.', 'o', '+', '=', '*', 'B', 'O', 'X', '@', '%', '#', '&', '8', '$', '0']
}

/// The symbol index of a count: the count itself, clamped to the last symbol.
pub open spec fn symbol_index(count: int) -> int {
    if count >= alphabet().len() {
        alphabet().len() - 1
    } else {
        count
    }
}

pub open spec fn symbol_of(count: int) -> char {
    alphabet()[symbol_index(count)]
}

/// The number of columns of a grid, read from its first row.
pub open spec fn grid_cols(grid: Seq<Vec<u8>>) -> int {
    if grid.len() > 0 {
        grid[0]@.len() as int
    } else {
        0
    }
}

/// Every row of the grid is as long as the first.
pub open spec fn grid_rectangular(grid: Seq<Vec<u8>>) -> bool {
    forall|r: int| 0 <= r < grid.len() ==> (#[trigger] grid[r])@.len() == grid_cols(grid)
}

/// Whether every row of the grid is as long as the first.
pub fn grid_is_rectangular(grid: &[Vec<u8>]) -> (r: bool)
    ensures
        r == grid_rectangular(grid@),
{
    if grid.len() == 0 {
        return true;
    }
    let cols = grid[0].len();
    let mut i: usize = 0;
    while i < grid.len()
        invariant
            grid@.len() > 0,
            cols == grid_cols(grid@),
            i <= grid@.len(),
            forall|r: int| 0 <= r < i ==> (#[trigger] grid@[r])@.len() == cols,
        decreases grid@.len() - i,
    {
        if grid[i].len() != cols {
            return false;
        }
        i += 1;
    }
    true
}

/// What cell `(r, c)` shows: the start mark, else the end mark, else the symbol of its count.
pub open spec fn cell_char(
    grid: Seq<Vec<u8>>,
    start: (usize, usize),
    end: (usize, usize),
    marks: (char, char),
    r: int,
    c: int,
) -> char {
    if (r, c) == pos_of(start) {
        marks.0
    } else if (r, c) == pos_of(end) {
        marks.1
    } else {
        symbol_of(grid[r]@[c] as int)
    }
}

/// The characters of row `r`, left to right.
pub open spec fn row_chars(
    grid: Seq<Vec<u8>>,
    start: (usize, usize),
    end: (usize, usize),
    marks: (char, char),
    r: int,
) -> Seq<char> {
    Seq::new(grid_cols(grid) as nat, |c: int| cell_char(grid, start, end, marks, r, c))
}

/// The symbol for a visit count.
pub fn symbol_for_count(count: u8) -> (ch: char)
    ensures
        ch == symbol_of(count as int),
{
    let symbols: [char; 16] = [
        ' ',
        '.',
        'o',
        '+',
        '=',
        '*',
        'B',
        'O',
        'X',
        '@',
        '%',
        '#',
        '&',
        '8',
        '$',
        '0',
    ];
    let idx: usize = if count as usize >= symbols.len() {
        symbols.len() - 1
    } else {
        count as usize
    };
    proof {
        assert(symbols@ == alphabet());
    }
    symbols[idx]
}

fn cell_char_exec(
    grid: &[Vec<u8>],
    start: (usize, usize),
    end: (usize, usize),
    marks: (char, char),
    r: usize,
    c: usize,
) -> (ch: char)
    requires
        grid_rectangular(grid@),
        r < grid@.len(),
        c < grid_cols(grid@),
    ensures
        ch == cell_char(grid@, start, end, marks, r as int, c as int),
{
    if r == start.0 && c == start.1 {
        marks.0
    } else if r == end.0 && c == end.1 {
        marks.1
    } else {
        assert(grid@[r as int]@.len() == grid_cols(grid@));
        symbol_for_count(grid[r][c])
    }
}

/// The start and end marks of the box renderer.
pub open spec fn box_marks() -> (char, char) {
    ('S', 'E')
}

/// A border line: `+`, a dash per column, `+`.
pub open spec fn border_line(cols: int) -> Seq<char> {
    seq!['+'] + Seq::new(cols as nat, |c: int| '-') + seq!['+']
}

/// The line of grid row `r`, between two bars.
pub open spec fn box_row(grid: Seq<Vec<u8>>, start: (usize, usize), end: (usize, usize), r: int) -> Seq<
    char,
> {
    seq!['|'] + row_chars(grid, start, end, box_marks(), r) + seq!['|']
}

/// The lines of the box: a border, one line per grid row, a border.
pub open spec fn box_lines(grid: Seq<Vec<u8>>, start: (usize, usize), end: (usize, usize)) -> Seq<
    Seq<char>,
> {
    seq![border_line(grid_cols(grid))] + Seq::new(
        grid.len(),
        |r: int| box_row(grid, start, end, r),
    ) + seq![border_line(grid_cols(grid))]
}

/// Lines joined by newlines, with none after the last.
pub open spec fn join_lines(lines: Seq<Seq<char>>) -> Seq<char>
    decreases lines.len(),
{
    if lines.len() == 0 {
        Seq::empty()
    } else if lines.len() == 1 {
        lines[0]
    } else {
        join_lines(lines.drop_last()) + seq!['\n'] + lines.last()
    }
}

proof fn lemma_join_take(lines: Seq<Seq<char>>, k: int)
    requires
        1 <= k < lines.len(),
    ensures
        join_lines(lines.take(k + 1)) == join_lines(lines.take(k)) + seq!['\n'] + lines[k],
{
    assert(lines.take(k + 1).drop_last() =~= lines.take(k));
}

fn push_border(out: &mut String, cols: usize)
    ensures
        final(out)@ == old(out)@ + border_line(cols as int),
{
    let ghost before = out@;
    out.push('+');
    let mut c: usize = 0;
    while c < cols
        invariant
            c <= cols,
            out@ == before + seq!['+'] + Seq::new(c as nat, |i: int| '-'),
        decreases cols - c,
    {
        out.push('-');
        c += 1;
        assert(out@ =~= before + seq!['+'] + Seq::new(c as nat, |i: int| '-'));
    }
    out.push('+');
    assert(out@ =~= before + border_line(cols as int));
}

/// Appends the characters of grid row `r` to `out`.
fn push_row_chars(
    out: &mut String,
    grid: &[Vec<u8>],
    start: (usize, usize),
    end: (usize, usize),
    marks: (char, char),
    r: usize,
)
    requires
        grid_rectangular(grid@),
        r < grid@.len(),
    ensures
        final(out)@ == old(out)@ + row_chars(grid@, start, end, marks, r as int),
{
    let ghost before = out@;
    let cols = grid[0].len();
    let mut c: usize = 0;
    while c < cols
        invariant
            grid_rectangular(grid@),
            r < grid@.len(),
            cols == grid_cols(grid@),
            c <= cols,
            out@ == before + row_chars(grid@, start, end, marks, r as int).take(c as int),
        decreases cols - c,
    {
        let ch = cell_char_exec(grid, start, end, marks, r, c);
        out.push(ch);
        c += 1;
        assert(out@ =~= before + row_chars(grid@, start, end, marks, r as int).take(c as int));
    }
    assert(row_chars(grid@, start, end, marks, r as int).take(cols as int) =~= row_chars(
        grid@,
        start,
        end,
        marks,
        r as int,
    ));
}

/// Draws the grid inside a box of `+`, `-` and `|`, with `S` at the start
/// cell, `E` at the end cell, and each other cell the symbol of its count.
pub fn render_drunken_bishop_art(grid: &[Vec<u8>], start_pos: (usize, usize), end_pos: (
    usize,
    usize,
)) -> (art: String)
    requires
        grid_rectangular(grid@),
    ensures
        art@ == join_lines(box_lines(grid@, start_pos, end_pos)),
{
    let ghost lines = box_lines(grid@, start_pos, end_pos);
    let rows = grid.len();
    let cols: usize = if rows > 0 {
        grid[0].len()
    } else {
        0
    };
    let mut art = String::new();
    push_border(&mut art, cols);
    proof {
        assert(lines.take(1) =~= seq![lines[0]]);
        assert(art@ =~= join_lines(lines.take(1)));
    }
    let mut r: usize = 0;
    while r < rows
        invariant
            rows == grid@.len(),
            cols == grid_cols(grid@),
            grid_rectangular(grid@),
            lines == box_lines(grid@, start_pos, end_pos),
            r <= rows,
            art@ == join_lines(lines.take(r + 1)),
        decreases rows - r,
    {
        let ghost before = art@;
        art.push('\n');
        art.push('|');
        push_row_chars(&mut art, grid, start_pos, end_pos, ('S', 'E'), r);
        art.push('|');
        proof {
            lemma_join_take(lines, r + 1);
            assert(lines[r + 1] == box_row(grid@, start_pos, end_pos, r as int));
            assert(art@ =~= before + seq!['\n'] + lines[r + 1]);
        }
        r += 1;
    }
    let ghost before = art@;
    art.push('\n');
    push_border(&mut art, cols);
    proof {
        lemma_join_take(lines, rows + 1);
        assert(lines.take(rows + 2) =~= lines);
        assert(art@ =~= before + seq!['\n'] + lines[rows + 1]);
    }
    art
}

/// The start and end marks of the template renderer.
pub open spec fn crow_marks() -> (char, char) {
    ('オ', 'エ')
}

/// The characters of all cells in row-major order.
pub open spec fn row_major(
    grid: Seq<Vec<u8>>,
    start: (usize, usize),
    end: (usize, usize),
    marks: (char, char),
) -> Seq<char> {
    Seq::new(grid.len(), |r: int| row_chars(grid, start, end, marks, r)).flatten_alt()
}

/// The characters of all cells, row by row and left to right within a row.
pub fn cell_chars(grid: &[Vec<u8>], start_pos: (usize, usize), end_pos: (usize, usize), marks: (
    char,
    char,
)) -> (cells: String)
    requires
        grid_rectangular(grid@),
    ensures
        cells@ == row_major(grid@, start_pos, end_pos, marks),
{
    let ghost rows_seq = Seq::new(grid@.len(), |r: int| row_chars(grid@, start_pos, end_pos, marks, r));
    let mut cells = String::new();
    let mut r: usize = 0;
    while r < grid.len()
        invariant
            grid_rectangular(grid@),
            rows_seq == Seq::new(grid@.len(), |r: int| row_chars(grid@, start_pos, end_pos, marks, r)),
            r <= grid@.len(),
            cells@ == rows_seq.take(r as int).flatten_alt(),
        decreases grid@.len() - r,
    {
        push_row_chars(&mut cells, grid, start_pos, end_pos, marks, r);
        proof {
            assert(rows_seq.take(r + 1).drop_last() =~= rows_seq.take(r as int));
        }
        r += 1;
    }
    assert(rows_seq.take(grid@.len() as int) =~= rows_seq);
    cells
}

/// The template from position `i` on, with each two-character `{}` slot
/// replaced by the next of `cells` from position `k` on; once the cells run
/// out, the remaining slots stay as they are.
pub open spec fn fill_from(template: Seq<char>, cells: Seq<char>, i: int, k: int) -> Seq<char>
    decreases template.len() - i,
{
    if i < 0 || i >= template.len() {
        Seq::empty()
    } else if i + 1 < template.len() && template[i] == '{' && template[i + 1] == '}' && 0 <= k
        < cells.len() {
        seq![cells[k]] + fill_from(template, cells, i + 2, k + 1)
    } else {
        seq![template[i]] + fill_from(template, cells, i + 1, k)
    }
}

/// Fills the `{}` slots of `template`, in the order they appear, with the
/// characters of `cells`, in order.
pub fn fill_template(template: &str, cells: &str) -> (out: String)
    ensures
        out@ == fill_from(template@, cells@, 0, 0),
{
    let n = template.unicode_len();
    let m = cells.unicode_len();
    let mut out = String::new();
    let mut i: usize = 0;
    let mut k: usize = 0;
    while i < n
        invariant
            n == template@.len(),
            m == cells@.len(),
            i <= n,
            k <= m,
            out@ + fill_from(template@, cells@, i as int, k as int) == fill_from(
                template@,
                cells@,
                0,
                0,
            ),
        decreases n - i,
    {
        let ghost prev = out@;
        let ch = template.get_char(i);
        if i + 1 < n && ch == '{' && template.get_char(i + 1) == '}' && k < m {
            out.push(cells.get_char(k));
            proof {
                assert(prev + fill_from(template@, cells@, i as int, k as int) =~= out@ + fill_from(
                    template@,
                    cells@,
                    i + 2,
                    k + 1,
                ));
            }
            i += 2;
            k += 1;
        } else {
            out.push(ch);
            proof {
                assert(prev + fill_from(template@, cells@, i as int, k as int) =~= out@ + fill_from(
                    template@,
                    cells@,
                    i + 1,
                    k as int,
                ));
            }
            i += 1;
        }
    }
    assert(out@ =~= out@ + fill_from(template@, cells@, i as int, k as int));
    out
}

/// The picture whose fifteen `{}` slots the small grid's cells fill.
pub const CROW_TEMPLATE: &'static str = "オエーー!!　　　＿_\n    　　　　 ＿＿_／　 ＼\n    　　　／　 ／　／/⌒\n    　　 / (ﾟ)/　／　/\n    　　/　　(　/{}⌒{}{}\n    　 ｜　　 ＼＼ﾟ{}{}{}\n    ／　　 /⌒＼＼ﾟ{}{}{}\n    /　　　｜　　　＼{}{}{}\n    　　　 ｜　　　　　ﾞ{}\n    　　　　　　　　　　　{}\n    　　　　　　　　　　　{}";

/// Fills the crow template with the cells of the grid in row-major order:
/// `オ` at the start cell, `エ` at the end cell, the symbol of its count elsewhere.
pub fn render_drunken_crow_art(grid: &[Vec<u8>], start_pos: (usize, usize), end_pos: (
    usize,
    usize,
)) -> (art: String)
    requires
        grid_rectangular(grid@),
    ensures
        art@ == fill_from(CROW_TEMPLATE@, row_major(grid@, start_pos, end_pos, crow_marks()), 0, 0),
{
    let cells = cell_chars(grid, start_pos, end_pos, ('オ', 'エ'));
    fill_template(CROW_TEMPLATE, cells.as_str())
}

} // verus!
