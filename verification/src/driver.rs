//! The decisions of the game loop: what an input does to the game, when the
//! active piece is due to drop, and what a drop does.
//!
//! The loop itself, with its clock, its window and its sound, runs outside
//! this library. It hands over inputs and tick counts and carries out the
//! returned actions.

use crate::game::{
    lemma_moved, lemma_moved_nowhere, lemma_moved_twice, GameContext, GameView, State,
    LINES_PER_LEVEL,
};
use crate::geometry::NUM_TETROMINOS;
use crate::random::random_piece;
use vstd::prelude::*;

verus! {

/// The highest starting level that can be asked for.
pub const MAX_STARTING_LEVEL: u32 = 15;

/// Number of ticks between two drops at level 0. Each level takes one tick
/// off, down to a single tick.
pub const BASE_DROP_TICKS: u32 = 15;

/// A discrete input event.
#[derive(Clone, Copy, Debug, PartialEq, Eq, Structural)]
pub enum Input {
    /// Move the active piece one column to the left.
    MoveLeft,
    /// Move the active piece one column to the right.
    MoveRight,
    /// Lower the active piece by one row.
    SoftDrop,
    /// Drop the active piece as far as it goes.
    HardDrop,
    /// Turn the active piece to its next orientation.
    Rotate,
    /// Pause or resume the game.
    TogglePause,
    /// Leave the game.
    Quit,
    /// Switch to the music track with the given number.
    SelectTrack(u8),
}

/// What the game loop has to do after an input has been handled.
#[derive(Clone, Copy, Debug, PartialEq, Eq, Structural)]
pub enum Action {
    /// Nothing: the game did not change visibly.
    Nothing,
    /// Draw the screen again: the active piece changed.
    Redraw,
    /// End the process.
    Quit,
    /// Start playing the music track with the given number.
    PlayTrack(u8),
}

/// The level that a game asked to start at `level` starts at: levels above
/// the highest starting level count as the highest.
pub open spec fn clamped_level(level: int) -> int {
    if level > MAX_STARTING_LEVEL {
        MAX_STARTING_LEVEL as int
    } else {
        level
    }
}

/// The completed-lines count that a game asked to start at `level` begins
/// with.
pub open spec fn starting_lines_of(level: int) -> int {
    LINES_PER_LEVEL * clamped_level(level)
}

/// Converts a starting level into the completed-lines count to start
/// with: three lines per level, for at most 15 levels. A game that starts
/// with that count is at the level asked for.
pub fn starting_lines(level: u32) -> (lines: u32)
    ensures
        lines == starting_lines_of(level as int),
        lines / LINES_PER_LEVEL == clamped_level(level as int),
{
    let level = if level > MAX_STARTING_LEVEL {
        MAX_STARTING_LEVEL
    } else {
        level
    };
    level * LINES_PER_LEVEL
}

impl GameView {
    /// The state after an attempt to move the active piece by `(dx, dy)`:
    /// moved if nothing is in the way, unchanged otherwise.
    pub open spec fn nudged(self, dx: int, dy: int) -> GameView {
        if self.collides(dx, dy) {
            self
        } else {
            self.moved(dx, dy)
        }
    }

    /// The state after an attempt to turn the active piece.
    pub open spec fn turned_if_possible(self) -> GameView {
        if self.can_rotate() {
            self.rotated()
        } else {
            self
        }
    }

    /// The state after the active piece has fallen straight down until it
    /// rests on the floor or on an occupied cell.
    pub open spec fn dropped(self) -> GameView
        decreases self.board.height() - self.coords[0].y,
    {
        if self.collides(0, 1) {
            self
        } else {
            self.moved(0, 1).dropped()
        }
    }

    /// Number of rows that the active piece can fall before it rests on the
    /// floor or on an occupied cell.
    pub open spec fn fall_distance(self) -> nat
        decreases self.board.height() - self.coords[0].y,
    {
        if self.collides(0, 1) {
            0
        } else {
            1 + self.moved(0, 1).fall_distance()
        }
    }

    /// The state after `input` has been handled. Moves and rotations only
    /// act on a running game; pausing acts on a running or paused game;
    /// quitting and track selection leave the game as it is.
    pub open spec fn after_input(self, input: Input) -> GameView {
        match input {
            Input::TogglePause => self.toggled_pause(),
            Input::Quit => self,
            Input::SelectTrack(_) => self,
            _ => if self.state != State::PLAY {
                self
            } else {
                match input {
                    Input::MoveLeft => self.nudged(-1, 0),
                    Input::MoveRight => self.nudged(1, 0),
                    Input::SoftDrop => self.nudged(0, 1),
                    Input::HardDrop => self.dropped(),
                    Input::Rotate => self.turned_if_possible(),
                    _ => self,
                }
            },
        }
    }

    /// Whether `input` changes the active piece.
    pub open spec fn input_moves_piece(self, input: Input) -> bool {
        self.state == State::PLAY && match input {
            Input::MoveLeft => !self.collides(-1, 0),
            Input::MoveRight => !self.collides(1, 0),
            Input::SoftDrop => !self.collides(0, 1),
            Input::HardDrop => !self.collides(0, 1),
            Input::Rotate => self.can_rotate(),
            _ => false,
        }
    }

    /// What the game loop has to do after `input` has been handled.
    pub open spec fn action_for(self, input: Input) -> Action {
        match input {
            Input::Quit => Action::Quit,
            Input::SelectTrack(track) => Action::PlayTrack(track),
            Input::TogglePause => Action::Nothing,
            _ => if self.input_moves_piece(input) {
                Action::Redraw
            } else {
                Action::Nothing
            },
        }
    }

    /// Number of ticks between two drops: 15 less the level, but at least
    /// one.
    pub open spec fn drop_interval(self) -> int {
        let ticks = BASE_DROP_TICKS - self.level();
        if ticks >= 1 {
            ticks
        } else {
            1
        }
    }

    /// At tick `game_ticks`, a piece that last dropped at tick `drop_ticks`
    /// is due to drop again.
    pub open spec fn drop_due(self, game_ticks: int, drop_ticks: int) -> bool {
        game_ticks >= drop_ticks + self.drop_interval()
    }

    /// The state after one drop: the active piece is one row lower, or, if
    /// it rests, it is locked and the next piece comes on, with `upcoming`
    /// as the new next piece type.
    pub open spec fn stepped(self, upcoming: int) -> GameView {
        if self.collides(0, 1) {
            self.locked(upcoming)
        } else {
            self.moved(0, 1)
        }
    }
}

impl GameContext {
    /// Moves the active piece by `(dx, dy)` if nothing is in the way.
    /// Returns whether it moved.
    pub fn try_move(&mut self, dx: i8, dy: i8) -> (moved: bool)
        requires
            old(self)@.wf(),
            old(self)@.placed(),
            old(self)@.stays_below_top(dy as int),
        ensures
            moved == !old(self)@.collides(dx as int, dy as int),
            final(self)@ == old(self)@.nudged(dx as int, dy as int),
            final(self)@.wf(),
            final(self)@.board.same_size(old(self)@.board),
            final(self)@.placed(),
    {
        if !self.collision_detected(dx, dy) {
            self.move_tetromino(dx, dy);
            true
        } else {
            false
        }
    }

    /// Drops the active piece as far as it goes, one row at a time.
    /// Returns whether it moved at all.
    pub fn hard_drop(&mut self) -> (moved: bool)
        requires
            old(self)@.wf(),
            old(self)@.placed(),
        ensures
            moved == !old(self)@.collides(0, 1),
            final(self)@ == old(self)@.dropped(),
            final(self)@.wf(),
            final(self)@.board.same_size(old(self)@.board),
            final(self)@.placed(),
            final(self)@.collides(0, 1),
    {
        let mut moved = false;
        loop
            invariant
                self@.wf(),
                self@.placed(),
                self@.board.same_size(old(self)@.board),
                self@.dropped() == old(self)@.dropped(),
                !moved ==> self@ == old(self)@,
                moved ==> !old(self)@.collides(0, 1),
            ensures
                self@ == old(self)@.dropped(),
                self@.board.same_size(old(self)@.board),
                self@.collides(0, 1),
                moved == !old(self)@.collides(0, 1),
            decreases self@.board.height() - self@.coords[0].y,
        {
            if self.collision_detected(0, 1) {
                break ;
            }
            proof {
                lemma_moved(self@, 0, 1);
            }
            self.move_tetromino(0, 1);
            moved = true;
        }
        moved
    }

    /// Handles one input event and tells the game loop what to do next.
    pub fn handle_input(&mut self, input: Input) -> (action: Action)
        requires
            old(self)@.ready(),
        ensures
            final(self)@ == old(self)@.after_input(input),
            action == old(self)@.action_for(input),
            final(self)@.ready(),
            final(self)@.board.same_size(old(self)@.board),
    {
        match input {
            Input::Quit => Action::Quit,
            Input::SelectTrack(track) => Action::PlayTrack(track),
            Input::TogglePause => {
                self.toggle_pause();
                Action::Nothing
            },
            _ => {
                let mut changed = false;
                if self.state() == State::PLAY {
                    changed =
                    match input {
                        Input::Rotate => self.rotate(),
                        Input::MoveLeft => self.try_move(-1, 0),
                        Input::MoveRight => self.try_move(1, 0),
                        Input::SoftDrop => self.try_move(0, 1),
                        Input::HardDrop => self.hard_drop(),
                        _ => false,
                    };
                }
                if changed {
                    Action::Redraw
                } else {
                    Action::Nothing
                }
            },
        }
    }

    /// Number of ticks between two drops at the current level.
    pub fn drop_interval(&self) -> (ticks: u32)
        ensures
            ticks == self@.drop_interval(),
    {
        let level = self.level();
        if level < BASE_DROP_TICKS - 1 {
            BASE_DROP_TICKS - level
        } else {
            1
        }
    }

    /// Tells whether, at tick `game_ticks`, a piece that last dropped at
    /// tick `drop_ticks` is due to drop again.
    pub fn drop_due(&self, game_ticks: u32, drop_ticks: u32) -> (due: bool)
        ensures
            due == self@.drop_due(game_ticks as int, drop_ticks as int),
    {
        game_ticks as u64 >= drop_ticks as u64 + self.drop_interval() as u64
    }

    /// Performs one drop: lowers the active piece by one row, or, if it
    /// rests, locks it and brings on the next piece, with `upcoming` as the
    /// new next piece type.
    pub fn step(&mut self, upcoming: u8)
        requires
            old(self)@.wf(),
            old(self)@.placed(),
            upcoming < NUM_TETROMINOS,
            old(self)@.collides(0, 1) ==> old(self)@.next_fits() && old(self)@.completed_lines
                + old(self)@.board.complete_count() <= u32::MAX,
        ensures
            final(self)@ == old(self)@.stepped(upcoming as int),
            final(self)@.wf(),
            final(self)@.board.same_size(old(self)@.board),
            final(self)@.state == State::GAMEOVER || final(self)@.state == old(self)@.state,
            final(self)@.state != State::GAMEOVER ==> final(self)@.placed(),
    {
        if !self.collision_detected(0, 1) {
            self.move_tetromino(0, 1);
        } else {
            self.lock_piece(upcoming);
        }
    }

    /// Advances a running game by one tick of the clock: if the active
    /// piece is due to drop, it drops by one row or locks, and the piece
    /// after the next is chosen at random when it locks. Returns whether a
    /// drop took place; the caller then restarts the drop timer at
    /// `game_ticks` and draws the screen again.
    pub fn tick(&mut self, game_ticks: u32, drop_ticks: u32) -> (dropped: bool)
        requires
            old(self)@.ready(),
            old(self)@.state == State::PLAY && old(self)@.drop_due(
                game_ticks as int,
                drop_ticks as int,
            ) && old(self)@.collides(0, 1) ==> old(self)@.next_fits() && old(
                self,
            )@.completed_lines + old(self)@.board.complete_count() <= u32::MAX,
        ensures
            dropped == (old(self)@.state == State::PLAY && old(self)@.drop_due(
                game_ticks as int,
                drop_ticks as int,
            )),
            !dropped ==> final(self)@ == old(self)@,
            dropped ==> final(self)@ == old(self)@.stepped(final(self)@.next_piece),
            final(self)@.ready(),
            final(self)@.board.same_size(old(self)@.board),
    {
        if self.state() == State::PLAY && self.drop_due(game_ticks, drop_ticks) {
            if !self.collision_detected(0, 1) {
                self.move_tetromino(0, 1);
            } else {
                let upcoming = random_piece();
                self.lock_piece(upcoming);
            }
            true
        } else {
            false
        }
    }
}

/// A dropped piece has fallen straight down by its fall distance: every row
/// on the way was free, and where it lies now it rests.
pub proof fn lemma_dropped(game: GameView)
    requires
        game.wf(),
        game.placed(),
    ensures
        game.dropped() == game.moved(0, game.fall_distance() as int),
        game.dropped().collides(0, 1),
        game.collides(0, game.fall_distance() as int + 1),
        forall|rows: int| 1 <= rows <= game.fall_distance() ==> !game.collides(0, rows),
    decreases game.board.height() - game.coords[0].y,
{
    if game.collides(0, 1) {
        lemma_moved_nowhere(game);
    } else {
        let lower = game.moved(0, 1);
        lemma_moved(game, 0, 1);
        lemma_dropped(lower);
        lemma_moved_twice(game, 0, 1, 0, lower.fall_distance() as int);
        lemma_moved_twice(game, 0, 1, 0, lower.fall_distance() as int + 1);
        assert forall|rows: int| 1 <= rows <= game.fall_distance() implies !game.collides(
            0,
            rows,
        ) by {
            if rows > 1 {
                lemma_moved_twice(game, 0, 1, 0, rows - 1);
            }
        }
    }
}

/// A game that is over stays over: no input changes it.
pub proof fn lemma_game_over_is_terminal(game: GameView, input: Input)
    requires
        game.state == State::GAMEOVER,
    ensures
        game.after_input(input) == game,
        game.action_for(input) != Action::Redraw,
{
}

/// Line clearing never lowers the completed-lines counter, and so never
/// lowers the level.
pub proof fn lemma_progress_is_monotonic(game: GameView, upcoming: int)
    requires
        game.wf(),
    ensures
        game.cleared().completed_lines >= game.completed_lines,
        game.cleared().level() >= game.level(),
        game.stepped(upcoming).completed_lines >= game.completed_lines,
{
}

} // verus!
