use termlife::board::{Board, RenderOp};
use termlife::scheduler::{Command, Scheduler, StepResult, FRAME_WAIT_MS, WELCOME_WAIT_MS};

fn board_with(width: usize, height: usize, live: &[(usize, usize)]) -> Board {
    let mut b = Board::with_dimensions(width, height);
    for &(x, y) in live {
        b.set_cell(x, y, true);
    }
    b
}

fn pattern_with(width: usize, height: usize, live: &[(usize, usize)]) -> Vec<bool> {
    let mut v = vec![false; width * height];
    for &(x, y) in live {
        v[y * width + x] = true;
    }
    v
}

fn grid_cells(b: &Board) -> Vec<bool> {
    let mut v = Vec::new();
    for y in 0..b.height() {
        for x in 0..b.width() {
            v.push(b.cell(x, y));
        }
    }
    v
}

fn frame_ops(r: StepResult) -> Vec<RenderOp> {
    match r {
        StepResult::Frame(ops) => ops,
        StepResult::Stop => panic!("expected a frame, got a stop"),
    }
}

#[test]
fn welcome_interval_then_steady() {
    let mut s = Scheduler::new(Board::with_dimensions(2, 2));
    assert_eq!(s.interval_ms(), WELCOME_WAIT_MS);
    s.step(Command::Timeout);
    assert_eq!(s.interval_ms(), FRAME_WAIT_MS);
    s.step(Command::Timeout);
    assert_eq!(s.interval_ms(), FRAME_WAIT_MS);
}

#[test]
fn quit_stops_without_touching_the_board() {
    let mut s = Scheduler::new(board_with(3, 3, &[(1, 1)]));
    let r = s.step(Command::Quit);
    assert!(matches!(r, StepResult::Stop));
    assert!(s.board().cell(1, 1));
    assert_eq!(s.interval_ms(), WELCOME_WAIT_MS);
}

#[test]
fn reseed_shows_the_fresh_grid_unadvanced() {
    let mut s = Scheduler::new(Board::with_dimensions(2, 2));
    let p = vec![true, true, false, false];
    let ops = frame_ops(s.step(Command::Reseed(p.clone())));
    let mut fresh = Board::with_dimensions(2, 2);
    fresh.generate(&p);
    assert_eq!(ops, fresh.render());
    assert_eq!(grid_cells(s.board()), p);
}

#[test]
fn scheduler_renders_before_advancing() {
    // generation 0 is a horizontal blinker; the reseed pattern is a
    // vertical one, so an advance is visible on every buffer involved
    let blinker = [(1, 2), (2, 2), (3, 2)];
    let mut s = Scheduler::new(board_with(5, 5, &blinker));

    let g0 = board_with(5, 5, &blinker);
    let mut g1 = board_with(5, 5, &blinker);
    g1.update();
    let reseed = pattern_with(5, 5, &[(2, 1), (2, 2), (2, 3)]);
    let mut fresh = Board::with_dimensions(5, 5);
    fresh.generate(&reseed);
    let mut fresh_next = Board::with_dimensions(5, 5);
    fresh_next.generate(&reseed);
    fresh_next.update();

    // scripted waits: Timeout, Timeout, Reseed, Timeout, Timeout
    let f0 = frame_ops(s.step(Command::Timeout));
    assert_eq!(f0, g0.render()); // generation 0
    let f1 = frame_ops(s.step(Command::Timeout));
    assert_eq!(f1, g1.render()); // generation 1
    let f2 = frame_ops(s.step(Command::Reseed(reseed.clone())));
    assert_eq!(f2, fresh.render()); // the fresh buffer, not advanced
    let f3 = frame_ops(s.step(Command::Timeout));
    assert_eq!(f3, fresh.render()); // still shown before its first advance
    let f4 = frame_ops(s.step(Command::Timeout));
    assert_eq!(f4, fresh_next.render()); // the reseeded buffer advanced once
}
