use randomart::fingerprint::{
    generate_drunken_bishop_grid, generate_drunken_crow_grid, BISHOP_COLS, BISHOP_ROWS, CROW_COLS,
    CROW_ROWS,
};
use randomart::walk::{bump_count, walk};

fn grid_sum(grid: &[Vec<u8>]) -> u64 {
    grid.iter().flatten().map(|&v| v as u64).sum()
}

#[test]
fn zero_fingerprint_walks_to_the_corner() {
    let fp = [0u8; 32];
    let (grid, start, end) = walk(&fp, 9, 17);
    assert_eq!(start, (4, 8));
    assert_eq!(end, (0, 0));
    assert_eq!(grid.len(), 9);
    assert!(grid.iter().all(|row| row.len() == 17));
    // up-left diagonal until the top row, then left along it
    for &(r, c) in &[(3, 7), (2, 6), (1, 5), (0, 4), (0, 3), (0, 2), (0, 1)] {
        assert_eq!(grid[r][c], 1, "cell ({}, {})", r, c);
    }
    assert_eq!(grid[0][0], 121);
    assert_eq!(grid[4][8], 0);
    assert_eq!(grid_sum(&grid), 128);
}

#[test]
fn all_ones_fingerprint_walks_to_the_far_corner() {
    let fp = [0xFFu8; 32];
    let (grid, start, end) = walk(&fp, 3, 5);
    assert_eq!(start, (1, 2));
    assert_eq!(end, (2, 4));
    assert_eq!(grid[2][3], 1);
    assert_eq!(grid[2][4], 127);
    assert_eq!(grid_sum(&grid), 128);
}

#[test]
fn walk_is_deterministic() {
    let fp: Vec<u8> = (0u8..32).map(|i| i.wrapping_mul(37).wrapping_add(11)).collect();
    assert_eq!(walk(&fp, 9, 17), walk(&fp, 9, 17));
    assert_eq!(walk(&fp, 3, 5), walk(&fp, 3, 5));
}

#[test]
fn walk_starts_at_the_centre() {
    let fp: Vec<u8> = (0u8..32).collect();
    for &(rows, cols) in &[(1usize, 1usize), (3, 5), (9, 17), (7, 3), (11, 11)] {
        let (grid, start, end) = walk(&fp, rows, cols);
        assert_eq!(start, (rows / 2, cols / 2));
        assert!(end.0 < rows && end.1 < cols);
        assert_eq!(grid.len(), rows);
    }
}

#[test]
fn single_cell_grid_takes_every_visit() {
    let (grid, start, end) = walk(&[0x1B, 0xE4], 1, 1);
    assert_eq!(grid, vec![vec![8u8]]);
    assert_eq!(start, (0, 0));
    assert_eq!(end, (0, 0));
}

#[test]
fn counts_add_up_to_four_per_byte() {
    let fp: Vec<u8> = (0u8..32).map(|i| i.wrapping_mul(91) ^ 0x5A).collect();
    let (grid, _, _) = walk(&fp, 9, 17);
    assert_eq!(grid_sum(&grid), 128);
    let (small, _, _) = walk(&fp, 3, 5);
    assert_eq!(grid_sum(&small), 128);
}

#[test]
fn empty_fingerprint_stays_at_the_centre() {
    let (grid, start, end) = walk(&[], 3, 5);
    assert_eq!(start, (1, 2));
    assert_eq!(end, (1, 2));
    assert_eq!(grid_sum(&grid), 0);
}

#[test]
fn codes_are_read_low_pair_first() {
    // 0b00_01_10_11: codes 3 (down-right), 2 (down-left), 1 (up-right), 0 (up-left)
    let (grid, start, end) = walk(&[0b0001_1011], 9, 17);
    assert_eq!(start, (4, 8));
    assert_eq!(grid[5][9], 2);
    assert_eq!(grid[6][8], 1);
    assert_eq!(grid[4][8], 1);
    assert_eq!(end, (4, 8));
    assert_eq!(grid_sum(&grid), 4);
}

#[test]
fn heavily_visited_cell_saturates() {
    let fp = [0u8; 100];
    let (grid, _, end) = walk(&fp, 9, 17);
    assert_eq!(end, (0, 0));
    // 400 moves, the first eight of them on the way to the corner
    assert_eq!(grid[0][0], 255);
    assert_eq!(grid[0][1], 1);
}

#[test]
fn bump_count_saturates() {
    assert_eq!(bump_count(0), 1);
    assert_eq!(bump_count(124), 125);
    assert_eq!(bump_count(254), 255);
    assert_eq!(bump_count(255), 255);
}

#[test]
fn bishop_grid_walks_the_sha256_digest() {
    // SHA-256("abc")
    let digest: [u8; 32] = [
        0xba, 0x78, 0x16, 0xbf, 0x8f, 0x01, 0xcf, 0xea, 0x41, 0x41, 0x40, 0xde, 0x5d, 0xae, 0x22,
        0x23, 0xb0, 0x03, 0x61, 0xa3, 0x96, 0x17, 0x7a, 0x9c, 0xb4, 0x10, 0xff, 0x61, 0xf2, 0x00,
        0x15, 0xad,
    ];
    let expected = walk(&digest, BISHOP_ROWS, BISHOP_COLS);
    assert_eq!(generate_drunken_bishop_grid(b"abc"), expected);
    assert_ne!(generate_drunken_bishop_grid(b"abc"), walk(b"abc", BISHOP_ROWS, BISHOP_COLS));
}

#[test]
fn crow_grid_walks_the_sha256_digest() {
    let digest: [u8; 32] = [
        0xba, 0x78, 0x16, 0xbf, 0x8f, 0x01, 0xcf, 0xea, 0x41, 0x41, 0x40, 0xde, 0x5d, 0xae, 0x22,
        0x23, 0xb0, 0x03, 0x61, 0xa3, 0x96, 0x17, 0x7a, 0x9c, 0xb4, 0x10, 0xff, 0x61, 0xf2, 0x00,
        0x15, 0xad,
    ];
    let (grid, start, end) = generate_drunken_crow_grid(b"abc");
    assert_eq!((grid.clone(), start, end), walk(&digest, CROW_ROWS, CROW_COLS));
    assert_eq!(start, (1, 2));
    assert_eq!(grid_sum(&grid), 128);
}
