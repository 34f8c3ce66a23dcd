//! The frame scheduler: the per-iteration decision logic of the main loop.
//! The front end waits up to the current frame interval for a user command
//! and hands the outcome of that wait to `step`, which renders, reseeds,
//! advances or stops — so the whole render-then-maybe-advance ordering is
//! verified here, while the waiting, key reading and writing stay outside.

use crate::board::{sp_render, Board, RenderOp};
use vstd::prelude::*;

verus! {

/// The wait interval before the very first frame, long enough to read the
/// welcome text.
pub const WELCOME_WAIT_MS: u64 = 3000;

/// The steady frame interval after the first frame.
pub const FRAME_WAIT_MS: u64 = 250;

/// What one wait for user input produced: a quit request, a reseed request
/// carrying the fresh row-major seed pattern, or nothing before the frame
/// interval ran out.
pub enum Command {
    Quit,
    Reseed(Vec<bool>),
    Timeout,
}

/// What the front end must do after one step: stop the loop, or write the
/// given instructions to the display sink and wait again.
pub enum StepResult {
    Stop,
    Frame(Vec<RenderOp>),
}

/// Drives the frame cadence over a board. Its only state beyond the board is
/// whether the next wait is still the long welcome wait.
pub struct Scheduler {
    board: Board,
    first_frame: bool,
}

impl Scheduler {
    /// The board as of the last completed step.
    pub closed spec fn sp_board(self) -> Board {
        self.board
    }

    /// Whether the next wait is the long welcome wait.
    pub closed spec fn sp_first(self) -> bool {
        self.first_frame
    }

    pub open spec fn wf(self) -> bool {
        self.sp_board().wf()
    }

    pub fn new(board: Board) -> (s: Scheduler)
        requires
            board.wf(),
        ensures
            s.wf(),
            s.sp_board() == board,
            s.sp_first(),
    {
        Scheduler { board, first_frame: true }
    }

    /// The board the scheduler currently holds.
    pub fn board(&self) -> (b: &Board)
        ensures
            *b == self.sp_board(),
    {
        &self.board
    }

    /// How long the front end should wait for the next command.
    pub fn interval_ms(&self) -> (r: u64)
        ensures
            r == if self.sp_first() {
                WELCOME_WAIT_MS
            } else {
                FRAME_WAIT_MS
            },
    {
        if self.first_frame {
            WELCOME_WAIT_MS
        } else {
            FRAME_WAIT_MS
        }
    }

    /// One loop iteration, given what the wait produced.
    ///
    /// On a timeout the current generation is rendered and the board then
    /// advances, so the frame on screen is always one step behind the
    /// decision just made. On a reseed the board is overwritten with the
    /// fresh pattern and rendered as-is; the advance is skipped for this
    /// iteration. On a quit nothing is rendered and nothing changes.
    pub fn step(&mut self, cmd: Command) -> (r: StepResult)
        requires
            old(self).wf(),
            (cmd matches Command::Reseed(p) ==> p@.len() == old(self).sp_board().w() * old(
                self,
            ).sp_board().h()),
        ensures
            final (self).wf(),
            final (self).sp_board().w() == old(self).sp_board().w(),
            final (self).sp_board().h() == old(self).sp_board().h(),
            (cmd matches Command::Quit ==> r matches StepResult::Stop && *final (self) == *old(
                self,
            )),
            (cmd matches Command::Timeout ==> {
                &&& (r matches StepResult::Frame(ops) && ops@ == sp_render(
                    old(self).sp_board().cells(),
                ))
                &&& final (self).sp_board().cells() == old(self).sp_board().sp_next()
                &&& !final (self).sp_first()
            }),
            (cmd matches Command::Reseed(p) ==> {
                &&& (r matches StepResult::Frame(ops) && ops@ == sp_render(p@))
                &&& final (self).sp_board().cells() == p@
                &&& !final (self).sp_first()
            }),
    {
        match cmd {
            Command::Quit => StepResult::Stop,
            Command::Reseed(p) => {
                self.board.generate(&p);
                let ops = self.board.render();
                self.first_frame = false;
                StepResult::Frame(ops)
            },
            Command::Timeout => {
                let ops = self.board.render();
                self.board.update();
                self.first_frame = false;
                StepResult::Frame(ops)
            },
        }
    }
}

} // verus!
