use termlife::board::Board;
use termlife::board::RenderOp::{Glyph, Invert, Reset};

fn board_from(width: usize, height: usize, live: &[(usize, usize)]) -> Board {
    let mut b = Board::with_dimensions(width, height);
    for &(x, y) in live {
        b.set_cell(x, y, true);
    }
    b
}

fn cells_of(b: &Board) -> Vec<bool> {
    let mut v = Vec::new();
    for y in 0..b.height() {
        for x in 0..b.width() {
            v.push(b.cell(x, y));
        }
    }
    v
}

#[test]
fn with_dimensions_starts_dead() {
    let b = Board::with_dimensions(4, 3);
    assert_eq!(b.width(), 4);
    assert_eq!(b.height(), 3);
    for y in 0..3 {
        for x in 0..4 {
            assert!(!b.cell(x, y));
        }
    }
}

#[test]
fn out_of_range_reads_are_dead() {
    let mut b = Board::with_dimensions(3, 3);
    b.set_cell(0, 2, true);
    // (3, 1) lies outside the grid even though its row-major index would
    // land on the live (0, 2): the clamp is two-dimensional
    assert!(!b.cell(3, 1));
    assert!(!b.cell(1, 3));
    assert!(!b.cell(100, 100));
    assert!(b.cell(0, 2));
}

#[test]
fn neighbor_counts_on_full_grid() {
    let live: Vec<(usize, usize)> =
        (0..3).flat_map(|y| (0..3).map(move |x| (x, y))).collect();
    let b = board_from(3, 3, &live);
    assert_eq!(b.neighbors(1, 1), 8);
    assert_eq!(b.neighbors(0, 0), 3);
    assert_eq!(b.neighbors(1, 0), 5);
    assert_eq!(b.neighbors(0, 1), 5);
    assert_eq!(b.neighbors(2, 2), 3);
}

#[test]
fn neighbor_count_exact() {
    let b = board_from(3, 3, &[(0, 0), (2, 1), (1, 2)]);
    assert_eq!(b.neighbors(1, 1), 3);
    assert_eq!(b.neighbors(0, 0), 0);
    assert_eq!(b.neighbors(2, 2), 2);
}

#[test]
fn rule_table() {
    // the 8 Moore offsets around the center (2, 2) of a 5x5 grid
    let moore: [(usize, usize); 8] =
        [(1, 1), (2, 1), (3, 1), (1, 2), (3, 2), (1, 3), (2, 3), (3, 3)];
    for n in 0..=8 {
        for &center_alive in &[true, false] {
            let mut live: Vec<(usize, usize)> = moore[..n].to_vec();
            if center_alive {
                live.push((2, 2));
            }
            let mut b = board_from(5, 5, &live);
            assert_eq!(b.neighbors(2, 2) as usize, n);
            b.update();
            let expected = (center_alive && (n == 2 || n == 3)) || n == 3;
            assert_eq!(b.cell(2, 2), expected, "alive={} n={}", center_alive, n);
        }
    }
}

#[test]
fn block_is_a_still_life() {
    let mut b = board_from(4, 4, &[(1, 1), (2, 1), (1, 2), (2, 2)]);
    let before = cells_of(&b);
    b.update();
    assert_eq!(cells_of(&b), before);
}

#[test]
fn blinker_oscillates() {
    let mut b = board_from(5, 5, &[(1, 2), (2, 2), (3, 2)]);
    let horizontal = cells_of(&b);
    let vertical = cells_of(&board_from(5, 5, &[(2, 1), (2, 2), (2, 3)]));
    b.update();
    assert_eq!(cells_of(&b), vertical);
    b.update();
    assert_eq!(cells_of(&b), horizontal);
}

#[test]
fn boundary_does_not_wrap() {
    let b = board_from(3, 3, &[(0, 0)]);
    assert_eq!(b.neighbors(0, 1), 1);
    assert_eq!(b.neighbors(1, 0), 1);
    assert_eq!(b.neighbors(1, 1), 1);
    assert_eq!(b.neighbors(0, 0), 0);
    assert_eq!(b.neighbors(2, 0), 0);
    assert_eq!(b.neighbors(2, 1), 0);
    assert_eq!(b.neighbors(1, 2), 0);
    assert_eq!(b.neighbors(2, 2), 0);
}

#[test]
fn one_by_one_grid_stays_dead() {
    let mut b = Board::with_dimensions(1, 1);
    b.generate(&vec![true]);
    assert!(b.cell(0, 0));
    b.update();
    assert!(!b.cell(0, 0));
    b.update();
    assert!(!b.cell(0, 0));
}

#[test]
fn seeding_is_deterministic() {
    let p = vec![true, false, false, true, true, false];
    let mut a = Board::with_dimensions(3, 2);
    let mut b = Board::with_dimensions(3, 2);
    a.generate(&p);
    b.generate(&p);
    assert_eq!(cells_of(&a), cells_of(&b));
    assert_eq!(cells_of(&a), p);
}

#[test]
fn render_collapses_runs() {
    let mut b = Board::with_dimensions(4, 1);
    b.generate(&vec![false, true, true, false]);
    assert_eq!(b.render(), vec![Glyph, Invert, Glyph, Glyph, Reset, Glyph]);
}

#[test]
fn render_all_dead() {
    let b = Board::with_dimensions(2, 2);
    assert_eq!(b.render(), vec![Glyph, Glyph, Glyph, Glyph]);
}

#[test]
fn render_ends_on_live_run() {
    let mut b = Board::with_dimensions(2, 1);
    b.generate(&vec![false, true]);
    assert_eq!(b.render(), vec![Glyph, Invert, Glyph, Reset]);
}
