use randomart::render::{
    cell_chars, fill_template, grid_is_rectangular, render_drunken_bishop_art, render_drunken_crow_art,
    symbol_for_count, CROW_TEMPLATE,
};
use randomart::walk::walk;

#[test]
fn symbols_clamp_at_the_last() {
    assert_eq!(symbol_for_count(0), ' ');
    assert_eq!(symbol_for_count(1), '.');
    assert_eq!(symbol_for_count(4), '=');
    assert_eq!(symbol_for_count(14), '$');
    assert_eq!(symbol_for_count(15), '0');
    assert_eq!(symbol_for_count(16), '0');
    assert_eq!(symbol_for_count(255), '0');
}

#[test]
fn box_of_the_all_ones_walk() {
    let (grid, start, end) = walk(&[0xFFu8; 32], 3, 5);
    let art = render_drunken_bishop_art(&grid, start, end);
    assert_eq!(art, "+-----+\n|     |\n|  S  |\n|   .E|\n+-----+");
}

#[test]
fn box_has_two_more_lines_and_columns() {
    let fp: Vec<u8> = (0u8..32).map(|i| i.wrapping_mul(173).wrapping_add(7)).collect();
    let (grid, start, end) = walk(&fp, 9, 17);
    let art = render_drunken_bishop_art(&grid, start, end);
    let lines: Vec<&str> = art.split('\n').collect();
    assert_eq!(lines.len(), 11);
    for line in &lines {
        assert_eq!(line.chars().count(), 19);
    }
    assert_eq!(lines[0], "+-----------------+");
    assert_eq!(lines[10], "+-----------------+");
    assert!(!art.ends_with('\n'));
    assert_eq!(lines[5].chars().nth(9), Some('S'));
}

#[test]
fn start_mark_wins_when_the_walk_returns() {
    let grid = vec![vec![0u8, 2, 20], vec![1, 3, 5]];
    let art = render_drunken_bishop_art(&grid, (1, 1), (1, 1));
    assert_eq!(art, "+---+\n| o0|\n|.S*|\n+---+");
    assert!(!art.contains('E'));
}

#[test]
fn marks_outside_the_grid_show_nothing() {
    let grid = vec![vec![1u8, 16]];
    let art = render_drunken_bishop_art(&grid, (5, 5), (0, 7));
    assert_eq!(art, "+--+\n|.0|\n+--+");
}

#[test]
fn empty_grid_renders_two_borders() {
    let grid: Vec<Vec<u8>> = Vec::new();
    assert_eq!(render_drunken_bishop_art(&grid, (0, 0), (0, 0)), "++\n++");
}

#[test]
fn box_rendering_repeats_exactly() {
    let (grid, start, end) = walk(&[0x3Cu8; 32], 9, 17);
    let first = render_drunken_bishop_art(&grid, start, end);
    let second = render_drunken_bishop_art(&grid, start, end);
    assert_eq!(first.as_bytes(), second.as_bytes());
}

#[test]
fn template_has_a_slot_per_small_cell() {
    assert_eq!(CROW_TEMPLATE.matches("{}").count(), 15);
    assert!(CROW_TEMPLATE.starts_with("オエーー!!"));
    assert_eq!(CROW_TEMPLATE.lines().count(), 11);
}

#[test]
fn cells_come_in_row_major_order() {
    let (grid, start, end) = walk(&[0xFFu8; 32], 3, 5);
    let cells = cell_chars(&grid, start, end, ('オ', 'エ'));
    let cells: Vec<char> = cells.chars().collect();
    assert_eq!(cells.len(), 15);
    assert_eq!(cells[7], 'オ');
    assert_eq!(cells[13], '.');
    assert_eq!(cells[14], 'エ');
}

#[test]
fn crow_art_of_the_all_ones_walk() {
    let (grid, start, end) = walk(&[0xFFu8; 32], 3, 5);
    let art = render_drunken_crow_art(&grid, start, end);
    let mut expected = CROW_TEMPLATE.to_string();
    let cells = ["     ", "  オ  ", "   .エ"].concat();
    for ch in cells.chars() {
        let pos = expected.find("{}").unwrap();
        expected.replace_range(pos..pos + 2, &ch.to_string());
    }
    assert_eq!(art, expected);
    assert!(!art.contains("{}"));
    assert!(art.contains("＼＼ﾟ オ \n"));
    assert!(art.ends_with('エ'));
    assert!(art.lines().nth(9).unwrap().ends_with('.'));
}

#[test]
fn fill_template_in_order() {
    assert_eq!(fill_template("a{}b{}c", "xy"), "axbyc");
    assert_eq!(fill_template("{}{}", "オエ"), "オエ");
    assert_eq!(fill_template("no slots", "xyz"), "no slots");
}

#[test]
fn fill_template_leaves_extra_slots() {
    assert_eq!(fill_template("a{}b{}c{}", "x"), "axb{}c{}");
    assert_eq!(fill_template("{}", ""), "{}");
}

#[test]
fn fill_template_drops_extra_cells() {
    assert_eq!(fill_template("[{}]", "xyz"), "[x]");
}

#[test]
fn fill_template_needs_both_braces() {
    assert_eq!(fill_template("{ }{}}", "ab"), "{ }a}");
    assert_eq!(fill_template("{", "ab"), "{");
}

#[test]
fn ragged_grids_are_not_rectangular() {
    assert!(grid_is_rectangular(&[]));
    assert!(grid_is_rectangular(&[vec![1u8, 2], vec![3, 4]]));
    assert!(!grid_is_rectangular(&[vec![1u8, 2], vec![3]]));
    assert!(!grid_is_rectangular(&[vec![1u8], vec![3, 4]]));
}
