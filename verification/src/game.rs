//! The game state and the piece controller: spawning, collision probing,
//! moving, rotating and locking the active tetromino.

use crate::board::{
    lemma_cleared_wf, lemma_stamp_next, lemma_stamp_none, lemma_stamp_wf, Board, Grid, EMPTY,
};
use crate::geometry::{
    is_cell_index, is_orientation, is_piece, lemma_shape_bounds, lemma_shape_distinct,
    lemma_shape_step, lemma_starting_offset_bounds, next_orientation, points_of, rotation_delta,
    shape, shape_offset, starting_offset, Coords, Point, NUM_ORIENTATIONS, NUM_TETROMINOS,
    ROTATIONS, STARTING_POSITIONS,
};
use crate::random::random_piece;
use vstd::prelude::*;

verus! {

/// Whether the game reacts to input and to the drop timer.
#[derive(Clone, Copy, Debug, PartialEq, Eq, Structural)]
pub enum State {
    /// The active piece falls and obeys the player.
    PLAY,
    /// The game is frozen until play is resumed.
    PAUSE,
    /// A new piece could not be placed. Nothing changes any more.
    GAMEOVER,
}

/// Width in pixels of the wall that separates the board from the status
/// area.
pub const WALL_WIDTH_PX: u32 = 50;

/// Width of the status area, in blocks.
pub const STATUS_WIDTH_BLOCKS: u32 = 6;

/// Number of completed lines that make up one level.
pub const LINES_PER_LEVEL: u32 = 3;

/// The mathematical content of a [`GameContext`].
#[verifier::ext_equal]
pub struct GameView {
    /// The grid, including the cells of the active piece.
    pub board: Grid,
    /// Edge length of one block in pixels.
    pub block_size: int,
    /// Number of lines completed so far.
    pub completed_lines: int,
    /// Whether the game is running, paused or over.
    pub state: State,
    /// Type of the active piece.
    pub piece: int,
    /// Type of the piece that comes after the active one.
    pub next_piece: int,
    /// Orientation of the active piece.
    pub orientation: int,
    /// The four cells of the active piece.
    pub coords: Seq<Point>,
}

impl GameView {
    /// Width of the window in pixels: the board, the wall and the status
    /// area.
    pub open spec fn width_px(self) -> int {
        self.board.width * self.block_size + WALL_WIDTH_PX + STATUS_WIDTH_BLOCKS * self.block_size
    }

    /// Height of the window in pixels.
    pub open spec fn height_px(self) -> int {
        self.board.height() * self.block_size
    }

    /// The level, derived from the completed lines.
    pub open spec fn level(self) -> int {
        self.completed_lines / (LINES_PER_LEVEL as int)
    }

    /// The value that the active piece writes into the cells it occupies.
    pub open spec fn piece_id(self) -> u8 {
        (self.piece + 1) as u8
    }

    /// The board is well formed and small enough for cell coordinates to
    /// fit in `i8`, the window fits in `u32` pixels, and pieces and
    /// orientation are valid.
    pub open spec fn wf(self) -> bool {
        &&& self.board.wf()
        &&& self.board.width <= i8::MAX
        &&& self.board.height() <= i8::MAX
        &&& 0 <= self.block_size
        &&& self.width_px() <= u32::MAX
        &&& self.height_px() <= u32::MAX
        &&& 0 <= self.completed_lines <= u32::MAX
        &&& is_piece(self.piece)
        &&& is_piece(self.next_piece)
        &&& is_orientation(self.orientation)
        &&& self.coords.len() == 4
    }

    /// A board of `width` by `height` cells drawn with blocks of
    /// `block_size` pixels fits the machine: cell coordinates fit in `i8`
    /// and the window's pixel dimensions fit in `u32`.
    pub open spec fn fits_machine(width: int, height: int, block_size: int) -> bool {
        &&& width <= i8::MAX
        &&& height <= i8::MAX
        &&& width * block_size + WALL_WIDTH_PX + STATUS_WIDTH_BLOCKS * block_size <= u32::MAX
        &&& height * block_size <= u32::MAX
    }

    /// The state right after construction: an empty board, play running,
    /// and no piece placed yet.
    pub open spec fn initial(
        width: int,
        height: int,
        block_size: int,
        completed_lines: int,
        piece: int,
        next_piece: int,
    ) -> GameView {
        GameView {
            board: Grid::empty(width, height),
            block_size,
            completed_lines,
            state: State::PLAY,
            piece,
            next_piece,
            orientation: 0,
            coords: Seq::new(4, |i: int| Point { x: 0, y: 0 }),
        }
    }

    /// The same state with another board.
    pub open spec fn with_board(self, board: Grid) -> GameView {
        GameView { board, ..self }
    }

    /// The same state with another play state.
    pub open spec fn with_state(self, state: State) -> GameView {
        GameView { state, ..self }
    }

    /// All four cells of the active piece lie on the board.
    pub open spec fn on_board(self) -> bool {
        &&& self.board.contains(self.coords[0])
        &&& self.board.contains(self.coords[1])
        &&& self.board.contains(self.coords[2])
        &&& self.board.contains(self.coords[3])
    }

    /// Where the active piece sits: the position of its spawn column and of
    /// the row it spawned on, carried along by every move.
    pub open spec fn anchor(self) -> Point {
        self.coords[0].minus(shape(self.piece, self.orientation, 0))
    }

    /// Cell `i` of the active piece lies on the board, is marked there with
    /// the piece's identifier, and sits where the piece's shape in the
    /// current orientation puts it.
    pub open spec fn cell_placed(self, i: int) -> bool {
        &&& self.board.contains(self.coords[i])
        &&& self.board.at(self.coords[i]) == self.piece_id()
        &&& self.coords[i] == self.anchor().plus(shape(self.piece, self.orientation, i))
    }

    /// The active piece is on the board: its four cells are cells of the
    /// board marked with its identifier, and they form the piece's shape in
    /// its current orientation (so they are pairwise distinct).
    pub open spec fn placed(self) -> bool {
        &&& self.cell_placed(0)
        &&& self.cell_placed(1)
        &&& self.cell_placed(2)
        &&& self.cell_placed(3)
    }

    /// The board without the active piece.
    pub open spec fn lifted(self) -> Grid {
        self.board.stamp(self.coords, EMPTY)
    }

    /// The cells of the active piece displaced by `(dx, dy)`.
    pub open spec fn shifted(self, dx: int, dy: int) -> Seq<Point> {
        Seq::new(4, |i: int| self.coords[i].plus(Point { x: dx, y: dy }))
    }

    /// Cell `i` of the active piece cannot move by `(dx, dy)`: it would
    /// cross the left wall, the right wall or the floor, or land on a cell
    /// occupied by something other than the piece itself. The top is not
    /// examined.
    pub open spec fn cell_blocked(self, i: int, dx: int, dy: int) -> bool {
        let p = self.coords[i].plus(Point { x: dx, y: dy });
        ||| p.x < 0
        ||| p.x >= self.board.width
        ||| p.y >= self.board.height()
        ||| self.lifted().at(p) != EMPTY
    }

    /// The active piece cannot move by `(dx, dy)`.
    pub open spec fn collides(self, dx: int, dy: int) -> bool {
        ||| self.cell_blocked(0, dx, dy)
        ||| self.cell_blocked(1, dx, dy)
        ||| self.cell_blocked(2, dx, dy)
        ||| self.cell_blocked(3, dx, dy)
    }

    /// Displaced by `dy` rows, no cell of the active piece rises above the
    /// top row.
    pub open spec fn stays_below_top(self, dy: int) -> bool {
        &&& self.coords[0].y + dy >= 0
        &&& self.coords[1].y + dy >= 0
        &&& self.coords[2].y + dy >= 0
        &&& self.coords[3].y + dy >= 0
    }

    /// The state after the active piece has moved by `(dx, dy)`.
    pub open spec fn moved(self, dx: int, dy: int) -> GameView {
        GameView {
            board: self.lifted().stamp(self.shifted(dx, dy), self.piece_id()),
            coords: self.shifted(dx, dy),
            ..self
        }
    }

    /// The cells that the active piece would occupy after turning once.
    pub open spec fn turned(self) -> Seq<Point> {
        Seq::new(
            4,
            |i: int| self.coords[i].plus(rotation_delta(self.piece, self.orientation, i)),
        )
    }

    /// After turning, cell `i` of the active piece would leave the board on
    /// any of its four sides or land on a cell occupied by something other
    /// than the piece itself.
    pub open spec fn cell_obstructed(self, i: int) -> bool {
        let p = self.turned()[i];
        !self.board.contains(p) || self.lifted().at(p) != EMPTY
    }

    /// The active piece has room to turn.
    pub open spec fn can_rotate(self) -> bool {
        &&& !self.cell_obstructed(0)
        &&& !self.cell_obstructed(1)
        &&& !self.cell_obstructed(2)
        &&& !self.cell_obstructed(3)
    }

    /// The state after the active piece has turned once.
    pub open spec fn rotated(self) -> GameView {
        GameView {
            board: self.lifted().stamp(self.turned(), self.piece_id()),
            coords: self.turned(),
            orientation: next_orientation(self.orientation),
            ..self
        }
    }

    /// The column on which pieces spawn.
    pub open spec fn spawn_column(self) -> int {
        self.board.width / 2
    }

    /// The cells on which the active piece type spawns: its starting
    /// offsets around the spawn column, on the top rows.
    pub open spec fn spawn_cells(self) -> Seq<Point> {
        Seq::new(
            4,
            |i: int|
                Point { x: self.spawn_column(), y: 0 }.plus(starting_offset(self.piece, i)),
        )
    }

    /// The board is large enough to hold the spawn cells of the active
    /// piece type.
    pub open spec fn spawn_fits(self) -> bool {
        &&& self.board.contains(self.spawn_cells()[0])
        &&& self.board.contains(self.spawn_cells()[1])
        &&& self.board.contains(self.spawn_cells()[2])
        &&& self.board.contains(self.spawn_cells()[3])
    }

    /// Some spawn cell of the active piece type is already occupied.
    pub open spec fn spawn_blocked(self) -> bool {
        ||| self.board.at(self.spawn_cells()[0]) != EMPTY
        ||| self.board.at(self.spawn_cells()[1]) != EMPTY
        ||| self.board.at(self.spawn_cells()[2]) != EMPTY
        ||| self.board.at(self.spawn_cells()[3]) != EMPTY
    }

    /// The state after the active piece type has been placed on its spawn
    /// cells.
    pub open spec fn spawned(self) -> GameView {
        GameView {
            board: self.board.stamp(self.spawn_cells(), self.piece_id()),
            coords: self.spawn_cells(),
            ..self
        }
    }

    /// The state after line clearing: the board is compacted and the
    /// completed rows are counted.
    pub open spec fn cleared(self) -> GameView {
        GameView {
            board: self.board.cleared(),
            completed_lines: self.completed_lines + self.board.complete_count(),
            ..self
        }
    }

    /// The board is large enough to hold the spawn cells of the next piece
    /// type.
    pub open spec fn next_fits(self) -> bool {
        (GameView { piece: self.next_piece, ..self }).spawn_fits()
    }

    /// The state with play paused if it was running, and running if it was
    /// paused. A game that is over stays over.
    pub open spec fn toggled_pause(self) -> GameView {
        match self.state {
            State::PLAY => self.with_state(State::PAUSE),
            State::PAUSE => self.with_state(State::PLAY),
            State::GAMEOVER => self,
        }
    }

    /// The state in which the next piece type has become the active one, in
    /// its starting orientation, and `upcoming` is the new next piece type.
    /// Nothing is placed yet.
    pub open spec fn advanced(self, upcoming: int) -> GameView {
        GameView { orientation: 0, piece: self.next_piece, next_piece: upcoming, ..self }
    }

    /// The state after the active piece has locked: completed rows are
    /// cleared and counted, the next piece type becomes the active one and
    /// spawns, and `upcoming` is the new next piece type. If the spawn cells
    /// are occupied the game is over and no piece is placed.
    pub open spec fn locked(self, upcoming: int) -> GameView {
        let next = self.cleared().advanced(upcoming);
        if next.spawn_blocked() {
            next.with_state(State::GAMEOVER)
        } else {
            next.spawned()
        }
    }

    /// The active piece is in place unless the game is over: the condition
    /// under which the game accepts input and timer ticks.
    pub open spec fn ready(self) -> bool {
        self.wf() && (self.state != State::GAMEOVER ==> self.placed())
    }
}

/// The core state of one game: the board, the active piece, the piece that
/// follows it, the progress counters and the play state.
#[derive(Clone, Debug, PartialEq, Eq)]
pub struct GameContext {
    block_size: u32,
    completed_lines: u32,
    state: State,
    current_orientation: u8,
    current_coords: Coords,
    current_piece: u8,
    next_piece: u8,
    board: Board,
}

impl View for GameContext {
    type V = GameView;

    closed spec fn view(&self) -> GameView {
        GameView {
            board: self.board@,
            block_size: self.block_size as int,
            completed_lines: self.completed_lines as int,
            state: self.state,
            piece: self.current_piece as int,
            next_piece: self.next_piece as int,
            orientation: self.current_orientation as int,
            coords: points_of(self.current_coords),
        }
    }
}

impl GameContext {
    /// Creates a game with an empty board and the given active and next
    /// piece types. No piece is placed yet.
    pub fn with_pieces(
        width: u32,
        height: u32,
        block_size: u32,
        completed_lines: u32,
        current_piece: u8,
        next_piece: u8,
    ) -> (game: GameContext)
        requires
            GameView::fits_machine(width as int, height as int, block_size as int),
            current_piece < NUM_TETROMINOS,
            next_piece < NUM_TETROMINOS,
        ensures
            game@ == GameView::initial(
                width as int,
                height as int,
                block_size as int,
                completed_lines as int,
                current_piece as int,
                next_piece as int,
            ),
            game@.wf(),
    {
        GameContext::with_board(
            Board::new(width, height),
            block_size,
            completed_lines,
            current_piece,
            next_piece,
        )
    }

    /// Creates a game on a board that may already hold blocks, with the
    /// given active and next piece types. No piece is placed yet.
    pub fn with_board(
        board: Board,
        block_size: u32,
        completed_lines: u32,
        current_piece: u8,
        next_piece: u8,
    ) -> (game: GameContext)
        requires
            board@.wf(),
            GameView::fits_machine(board@.width, board@.height(), block_size as int),
            current_piece < NUM_TETROMINOS,
            next_piece < NUM_TETROMINOS,
        ensures
            game@ == GameView::initial(
                board@.width,
                board@.height(),
                block_size as int,
                completed_lines as int,
                current_piece as int,
                next_piece as int,
            ).with_board(board@),
            game@.wf(),
    {
        let game = GameContext {
            block_size,
            completed_lines,
            state: State::PLAY,
            current_orientation: 0,
            current_coords: [[0; 2]; 4],
            current_piece,
            next_piece,
            board,
        };
        assert(game@.coords =~= Seq::new(4, |i: int| Point { x: 0, y: 0 }));
        game
    }

    /// Creates a game with an empty board and with the active and the next
    /// piece type chosen at random. No piece is placed yet.
    pub fn new(
        width: u32,
        height: u32,
        block_size: u32,
        completed_lines: u32,
    ) -> (game: GameContext)
        requires
            GameView::fits_machine(width as int, height as int, block_size as int),
        ensures
            game@ == GameView::initial(
                width as int,
                height as int,
                block_size as int,
                completed_lines as int,
                game@.piece,
                game@.next_piece,
            ),
            game@.wf(),
    {
        let current_piece = random_piece();
        let next_piece = random_piece();
        GameContext::with_pieces(
            width,
            height,
            block_size,
            completed_lines,
            current_piece,
            next_piece,
        )
    }

    /// The board, including the cells of the active piece.
    pub fn board(&self) -> (board: &Board)
        ensures
            board@ == self@.board,
    {
        &self.board
    }

    /// Number of columns of the board.
    pub fn width(&self) -> (width: u32)
        ensures
            width == self@.board.width,
    {
        self.board.width()
    }

    /// Number of rows of the board.
    pub fn height(&self) -> (height: u32)
        requires
            self@.wf(),
        ensures
            height == self@.board.height(),
    {
        self.board.height()
    }

    /// Edge length of one block in pixels.
    pub fn block_size(&self) -> (block_size: u32)
        ensures
            block_size == self@.block_size,
    {
        self.block_size
    }

    /// Width of the window in pixels.
    pub fn width_px(&self) -> (width_px: u32)
        requires
            self@.wf(),
        ensures
            width_px == self@.width_px(),
    {
        assert(0 <= self@.board.width * self@.block_size) by (nonlinear_arith)
            requires
                0 <= self@.board.width,
                0 <= self@.block_size,
        ;
        self.board.width() * self.block_size + WALL_WIDTH_PX + STATUS_WIDTH_BLOCKS
            * self.block_size
    }

    /// Height of the window in pixels.
    pub fn height_px(&self) -> (height_px: u32)
        requires
            self@.wf(),
        ensures
            height_px == self@.height_px(),
    {
        self.board.height() * self.block_size
    }

    /// Number of lines completed so far.
    pub fn completed_lines(&self) -> (lines: u32)
        ensures
            lines == self@.completed_lines,
    {
        self.completed_lines
    }

    /// The level: one for every three completed lines.
    pub fn level(&self) -> (level: u32)
        ensures
            level == self@.level(),
    {
        self.completed_lines / LINES_PER_LEVEL
    }

    /// Whether the game is running, paused or over.
    pub fn state(&self) -> (state: State)
        ensures
            state == self@.state,
    {
        self.state
    }

    /// Type of the active piece.
    pub fn current_piece(&self) -> (piece: u8)
        ensures
            piece == self@.piece,
    {
        self.current_piece
    }

    /// Type of the piece that follows the active one.
    pub fn next_piece(&self) -> (piece: u8)
        ensures
            piece == self@.next_piece,
    {
        self.next_piece
    }

    /// Orientation of the active piece.
    pub fn current_orientation(&self) -> (orientation: u8)
        ensures
            orientation == self@.orientation,
    {
        self.current_orientation
    }

    /// The four cells of the active piece, as `[x, y]` pairs.
    pub fn current_coords(&self) -> (coords: Coords)
        ensures
            points_of(coords) == self@.coords,
    {
        self.current_coords
    }

    /// Reads the cell in column `x` of row `y` of the board.
    pub fn cell(&self, x: u32, y: u32) -> (value: u8)
        requires
            self@.wf(),
            self@.board.contains(Point { x: x as int, y: y as int }),
        ensures
            value == self@.board.at(Point { x: x as int, y: y as int }),
            value <= NUM_TETROMINOS,
    {
        self.board.cell(x, y)
    }

    /// Tells whether the active piece is in place: whether its four cells
    /// are cells of the board marked with its identifier that form its shape
    /// in its current orientation. This holds from a successful spawn until
    /// the piece locks.
    pub fn piece_in_place(&self) -> (placed: bool)
        requires
            self@.wf(),
        ensures
            placed == self@.placed(),
    {
        let width = self.board.width() as i16;
        let height = self.board.height() as i16;
        let first = shape_offset(self.current_piece, self.current_orientation, 0);
        let anchor_x = self.current_coords[0][0] as i16 - first[0] as i16;
        let anchor_y = self.current_coords[0][1] as i16 - first[1] as i16;
        proof {
            lemma_shape_bounds(self@.piece, self@.orientation, 0);
        }
        let mut i: usize = 0;
        while i < 4
            invariant
                i <= 4,
                self@.wf(),
                width == self@.board.width,
                height == self@.board.height(),
                self@.anchor() == (Point { x: anchor_x as int, y: anchor_y as int }),
                forall|j: int| 0 <= j < i ==> #[trigger] self@.cell_placed(j),
            decreases 4 - i,
        {
            let x = self.current_coords[i][0] as i16;
            let y = self.current_coords[i][1] as i16;
            let offset = shape_offset(self.current_piece, self.current_orientation, i);
            proof {
                lemma_shape_bounds(self@.piece, self@.orientation, i as int);
            }
            if x < 0 || x >= width || y < 0 || y >= height {
                assert(!self@.cell_placed(i as int));
                return false;
            }
            if self.board.cell(x as u32, y as u32) != self.current_piece + 1 {
                assert(!self@.cell_placed(i as int));
                return false;
            }
            if x != anchor_x + offset[0] as i16 || y != anchor_y + offset[1] as i16 {
                assert(!self@.cell_placed(i as int));
                return false;
            }
            assert(self@.cell_placed(i as int));
            i += 1;
        }
        true
    }

    /// Writes `value` into the four board cells of the active piece.
    fn set_coords(&mut self, value: u8)
        requires
            old(self)@.wf(),
            old(self)@.on_board(),
            value <= NUM_TETROMINOS,
        ensures
            final(self)@ == old(self)@.with_board(
                old(self)@.board.stamp(old(self)@.coords, value),
            ),
            final(self)@.wf(),
            final(self)@.board.same_size(old(self)@.board),
    {
        let ghost before = self@;
        proof {
            lemma_stamp_none(before.board, before.coords, value);
        }
        for i in 0..4usize
            invariant
                before.wf(),
                before.on_board(),
                value <= NUM_TETROMINOS,
                self@ == before.with_board(before.board.stamp_first(before.coords, i as int, value)),
        {
            proof {
                lemma_stamp_wf(before.board, before.coords, i as int, value);
                lemma_stamp_next(before.board, before.coords, i as int, value);
            }
            let x = self.current_coords[i][0];
            let y = self.current_coords[i][1];
            self.board.set_cell(x as u32, y as u32, value);
        }
        proof {
            lemma_stamp_wf(before.board, before.coords, 4, value);
        }
    }

    /// Places the active piece type on its spawn cells, around the middle
    /// column of the top rows, and records them as the cells of the active
    /// piece. Returns `true`, and changes nothing, if any of the four spawn
    /// cells is occupied: all four are examined before the first is
    /// written.
    pub fn add_board_piece(&mut self) -> (blocked: bool)
        requires
            old(self)@.wf(),
            old(self)@.spawn_fits(),
        ensures
            blocked == old(self)@.spawn_blocked(),
            blocked ==> final(self)@ == old(self)@,
            !blocked ==> final(self)@ == old(self)@.spawned(),
            final(self)@.wf(),
            final(self)@.board.same_size(old(self)@.board),
            !blocked && old(self)@.orientation == 0 ==> final(self)@.placed(),
    {
        let ghost before = self@;
        let ghost cells = before.spawn_cells();
        let coords = STARTING_POSITIONS[self.current_piece as usize];
        let center = (self.board.width() / 2) as i8;
        proof {
            lemma_starting_offset_bounds(before.piece, 0);
            lemma_starting_offset_bounds(before.piece, 1);
            lemma_starting_offset_bounds(before.piece, 2);
            lemma_starting_offset_bounds(before.piece, 3);
        }
        let mut i: usize = 0;
        while i < 4
            invariant
                i <= 4,
                self@ == before,
                before.wf(),
                before.spawn_fits(),
                cells == before.spawn_cells(),
                center == before.spawn_column(),
                coords == STARTING_POSITIONS[before.piece],
                forall|j: int| 0 <= j < i ==> before.board.at(#[trigger] cells[j]) == EMPTY,
            decreases 4 - i,
        {
            let x = center + coords[i][0];
            let y = coords[i][1];
            assert(cells[i as int] == Point { x: x as int, y: y as int });
            if self.board.cell(x as u32, y as u32) != EMPTY {
                return true;
            }
            i += 1;
        }
        assert(!before.spawn_blocked());
        proof {
            lemma_stamp_none(before.board, cells, before.piece_id());
        }
        for i in 0..4usize
            invariant
                before.wf(),
                before.spawn_fits(),
                cells == before.spawn_cells(),
                center == before.spawn_column(),
                coords == STARTING_POSITIONS[before.piece],
                self@ == (GameView {
                    board: before.board.stamp_first(cells, i as int, before.piece_id()),
                    coords: self@.coords,
                    ..before
                }),
                forall|j: int| 0 <= j < i ==> self@.coords[j] == cells[j],
        {
            proof {
                lemma_stamp_wf(before.board, cells, i as int, before.piece_id());
                lemma_stamp_next(before.board, cells, i as int, before.piece_id());
            }
            let x = center + coords[i][0];
            let y = coords[i][1];
            assert(cells[i as int] == Point { x: x as int, y: y as int });
            self.board.set_cell(x as u32, y as u32, self.current_piece + 1);
            self.current_coords[i][0] = x;
            self.current_coords[i][1] = y;
        }
        proof {
            assert(self@.coords =~= cells);
            lemma_spawned(before);
        }
        false
    }

    /// Tells whether the active piece is unable to move by `(dx, dy)`:
    /// whether one of its cells would cross the left wall, the right wall or
    /// the floor, or land on an occupied cell. The piece's own cells do not
    /// count as occupied: they are cleared for the probe and restored before
    /// returning, so the game is left exactly as it was.
    pub fn collision_detected(&mut self, dx: i8, dy: i8) -> (collision: bool)
        requires
            old(self)@.wf(),
            old(self)@.placed(),
            old(self)@.stays_below_top(dy as int),
        ensures
            collision == old(self)@.collides(dx as int, dy as int),
            final(self)@ == old(self)@,
    {
        let ghost before = self@;
        let mut collision = false;
        // Clear the board where the piece currently is to not detect self collision.
        self.set_coords(EMPTY);
        let width = self.board.width() as i16;
        let height = self.board.height() as i16;
        let mut i: usize = 0;
        while i < 4 && !collision
            invariant
                i <= 4,
                before.wf(),
                before.placed(),
                before.stays_below_top(dy as int),
                self@ == before.with_board(before.lifted()),
                self@.wf(),
                width == before.board.width,
                height == before.board.height(),
                collision ==> before.collides(dx as int, dy as int),
                !collision ==> forall|j: int|
                    0 <= j < i ==> !#[trigger] before.cell_blocked(j, dx as int, dy as int),
            decreases 4 - i + if collision { 0int } else { 1int },
        {
            let x = self.current_coords[i][0] as i16 + dx as i16;
            let y = self.current_coords[i][1] as i16 + dy as i16;
            assert(before.coords[i as int].plus(Point { x: dx as int, y: dy as int }) == Point {
                x: x as int,
                y: y as int,
            });
            // Collision is hitting the left wall, right wall, bottom, or an occupied cell.
            // This probe is only for movement, so the top is not examined.
            if x < 0 || x >= width || y >= height || self.board.cell(x as u32, y as u32) != EMPTY {
                collision = true;
                assert(before.cell_blocked(i as int, dx as int, dy as int));
            }
            i += 1;
        }
        // Restore the current piece.
        self.set_coords(self.current_piece + 1);
        proof {
            lemma_restamp(before);
        }
        collision
    }

    /// Moves the active piece by `(dx, dy)`: clears its cells, displaces
    /// them and writes the piece's identifier into the new cells. Nothing is
    /// validated here: the move must have been probed before.
    pub fn move_tetromino(&mut self, dx: i8, dy: i8)
        requires
            old(self)@.wf(),
            old(self)@.placed(),
            old(self)@.stays_below_top(dy as int),
            !old(self)@.collides(dx as int, dy as int),
        ensures
            final(self)@ == old(self)@.moved(dx as int, dy as int),
            final(self)@.wf(),
            final(self)@.board.same_size(old(self)@.board),
            final(self)@.placed(),
    {
        let ghost before = self@;
        let ghost cells = before.shifted(dx as int, dy as int);
        // Clear the board where the piece currently is.
        self.set_coords(EMPTY);
        proof {
            lemma_moved(before, dx as int, dy as int);
            lemma_stamp_wf(before.board, before.coords, 4, EMPTY);
            lemma_stamp_none(before.lifted(), cells, before.piece_id());
        }
        // Update the current piece's coordinates and fill the board in the new coordinates.
        for i in 0..4usize
            invariant
                before.wf(),
                before.placed(),
                before.lifted().wf(),
                before.moved(dx as int, dy as int).on_board(),
                cells == before.shifted(dx as int, dy as int),
                self@ == (GameView {
                    board: before.lifted().stamp_first(cells, i as int, before.piece_id()),
                    coords: self@.coords,
                    ..before
                }),
                forall|j: int| 0 <= j < i ==> self@.coords[j] == cells[j],
                forall|j: int| i <= j < 4 ==> self@.coords[j] == before.coords[j],
        {
            proof {
                lemma_stamp_wf(before.lifted(), cells, i as int, before.piece_id());
                lemma_stamp_next(before.lifted(), cells, i as int, before.piece_id());
            }
            assert(before.board.contains(cells[i as int]));
            self.current_coords[i][0] += dx;
            self.current_coords[i][1] += dy;
            let x = self.current_coords[i][0];
            let y = self.current_coords[i][1];
            self.board.set_cell(x as u32, y as u32, self.current_piece + 1);
        }
        proof {
            assert(self@.coords =~= cells);
        }
    }

    /// Turns the active piece to its next orientation if there is room:
    /// every cell moves by its entry in the rotation table. If a new cell
    /// would leave the board on any side or land on an occupied cell, the
    /// rotation is rejected, nothing changes, and `false` is returned.
    pub fn rotate(&mut self) -> (rotated: bool)
        requires
            old(self)@.wf(),
            old(self)@.placed(),
        ensures
            rotated == old(self)@.can_rotate(),
            rotated ==> final(self)@ == old(self)@.rotated(),
            !rotated ==> final(self)@ == old(self)@,
            final(self)@.wf(),
            final(self)@.board.same_size(old(self)@.board),
            final(self)@.placed(),
    {
        let ghost before = self@;
        let ghost cells = before.turned();
        let mut new_coords: [[i16; 2]; 4] = [[0; 2]; 4];
        let rotation = ROTATIONS[self.current_piece as usize][self.current_orientation as usize];
        for i in 0..4usize
            invariant
                self@ == before,
                before.wf(),
                before.placed(),
                cells == before.turned(),
                rotation == ROTATIONS[before.piece][before.orientation],
                forall|j: int|
                    0 <= j < i ==> cells[j] == (Point {
                        x: #[trigger] new_coords[j][0] as int,
                        y: new_coords[j][1] as int,
                    }),
        {
            new_coords[i][0] = self.current_coords[i][0] as i16 + rotation[i][0] as i16;
            new_coords[i][1] = self.current_coords[i][1] as i16 + rotation[i][1] as i16;
        }

        // Clear the board where the piece currently is to not detect self collision.
        self.set_coords(EMPTY);
        let width = self.board.width() as i16;
        let height = self.board.height() as i16;
        let mut i: usize = 0;
        while i < 4
            invariant
                i <= 4,
                before == old(self)@,
                before.wf(),
                before.placed(),
                cells == before.turned(),
                self@ == before.with_board(before.lifted()),
                self@.wf(),
                width == before.board.width,
                height == before.board.height(),
                forall|j: int|
                    0 <= j < 4 ==> cells[j] == (Point {
                        x: #[trigger] new_coords[j][0] as int,
                        y: new_coords[j][1] as int,
                    }),
                forall|j: int| 0 <= j < i ==> !#[trigger] before.cell_obstructed(j),
            decreases 4 - i,
        {
            let x = new_coords[i][0];
            let y = new_coords[i][1];
            assert(cells[i as int] == Point { x: x as int, y: y as int });
            // Collision is hitting the left wall, right wall, top, bottom, or an occupied cell.
            if x < 0 || x >= width || y < 0 || y >= height || self.board.cell(x as u32, y as u32)
                != EMPTY {
                assert(before.cell_obstructed(i as int));
                // Restore the current piece.
                self.set_coords(self.current_piece + 1);
                proof {
                    lemma_restamp(before);
                }
                return false;
            }
            i += 1;
        }
        assert(before.can_rotate());
        proof {
            lemma_rotated(before);
            lemma_stamp_wf(before.board, before.coords, 4, EMPTY);
            lemma_stamp_none(before.lifted(), cells, before.piece_id());
        }
        for i in 0..4usize
            invariant
                before.wf(),
                before.placed(),
                before.lifted().wf(),
                before.rotated().on_board(),
                cells == before.turned(),
                forall|j: int|
                    0 <= j < 4 ==> cells[j] == (Point {
                        x: #[trigger] new_coords[j][0] as int,
                        y: new_coords[j][1] as int,
                    }),
                self@ == (GameView {
                    board: before.lifted().stamp_first(cells, i as int, before.piece_id()),
                    coords: self@.coords,
                    ..before
                }),
                forall|j: int| 0 <= j < i ==> self@.coords[j] == cells[j],
        {
            proof {
                lemma_stamp_wf(before.lifted(), cells, i as int, before.piece_id());
                lemma_stamp_next(before.lifted(), cells, i as int, before.piece_id());
            }
            assert(before.board.contains(cells[i as int]));
            let x = new_coords[i][0];
            let y = new_coords[i][1];
            self.current_coords[i][0] = x as i8;
            self.current_coords[i][1] = y as i8;
            self.board.set_cell(x as u32, y as u32, self.current_piece + 1);
        }
        self.current_orientation = (self.current_orientation + 1) % NUM_ORIENTATIONS;
        proof {
            assert(self@.coords =~= cells);
        }
        true
    }

    /// Clears the completed rows of the board and adds their number to the
    /// completed-lines counter. Start from the bottom of the board, moving
    /// all rows down to fill in a completed row, with an empty row placed at
    /// the top.
    pub fn clear_board(&mut self)
        requires
            old(self)@.wf(),
            old(self)@.completed_lines + old(self)@.board.complete_count() <= u32::MAX,
        ensures
            final(self)@ == old(self)@.cleared(),
            final(self)@.wf(),
            final(self)@.board.same_size(old(self)@.board),
            final(self)@.board.width > 0 ==> forall|y: int|
                0 <= y < final(self)@.board.height() ==> !final(self)@.board.row_is_complete(y),
            final(self)@.board.occupied() + old(self)@.board.complete_count() * old(
                self,
            )@.board.width == old(self)@.board.occupied(),
    {
        let rows_deleted = self.board.clear_completed_rows();
        self.completed_lines += rows_deleted;
    }

    /// Pauses a running game and resumes a paused one. A game that is over
    /// stays over.
    pub fn toggle_pause(&mut self)
        ensures
            final(self)@ == old(self)@.toggled_pause(),
    {
        match self.state {
            State::PLAY => {
                self.state = State::PAUSE;
            },
            State::PAUSE => {
                self.state = State::PLAY;
            },
            State::GAMEOVER => {},
        }
    }

    /// Locks the active piece where it lies and brings on the next one:
    /// clears the completed rows, makes the next piece type the active one
    /// in its starting orientation, takes `upcoming` as the new next piece
    /// type, and spawns the active piece. If it cannot be placed the game is
    /// over.
    pub fn lock_piece(&mut self, upcoming: u8)
        requires
            old(self)@.wf(),
            old(self)@.next_fits(),
            old(self)@.completed_lines + old(self)@.board.complete_count() <= u32::MAX,
            upcoming < NUM_TETROMINOS,
        ensures
            final(self)@ == old(self)@.locked(upcoming as int),
            final(self)@.wf(),
            final(self)@.board.same_size(old(self)@.board),
            final(self)@.state == State::GAMEOVER || final(self)@.state == old(self)@.state,
            final(self)@.state != State::GAMEOVER ==> final(self)@.placed(),
    {
        self.clear_board();
        self.current_orientation = 0;
        self.current_piece = self.next_piece;
        self.next_piece = upcoming;
        proof {
            lemma_cleared_wf(old(self)@.board);
        }
        if self.add_board_piece() {
            self.state = State::GAMEOVER;
        }
    }
}

/// Putting the active piece back where it was lifted from restores the
/// board.
pub proof fn lemma_restamp(game: GameView)
    requires
        game.wf(),
        game.placed(),
    ensures
        game.lifted().stamp(game.coords, game.piece_id()) == game.board,
{
    assert(game.lifted().stamp(game.coords, game.piece_id()).rows =~~= game.board.rows);
}

/// Lifting a piece that was just written onto a board on which its cells
/// were free gives that board back.
proof fn lemma_lift_stamped(grid: Grid, cells: Seq<Point>, value: u8)
    requires
        grid.wf(),
        forall|i: int| 0 <= i < 4 ==> grid.contains(#[trigger] cells[i]) && grid.at(cells[i]) == EMPTY,
    ensures
        grid.stamp(cells, value).stamp(cells, EMPTY) == grid,
{
    assert(grid.stamp(cells, value).stamp(cells, EMPTY).rows =~~= grid.rows);
}

/// A spawned piece is in place: a piece placed on free spawn cells in its
/// starting orientation satisfies the active-piece invariant.
pub proof fn lemma_spawned(game: GameView)
    requires
        game.wf(),
        game.spawn_fits(),
        !game.spawn_blocked(),
    ensures
        game.spawned().wf(),
        game.spawned().board.same_size(game.board),
        game.orientation == 0 ==> game.spawned().placed(),
        game.spawned().lifted() == game.board,
{
    let after = game.spawned();
    lemma_stamp_wf(game.board, game.spawn_cells(), 4, game.piece_id());
    lemma_lift_stamped(game.board, game.spawn_cells(), game.piece_id());
}

/// A probed move keeps the active piece in place: after a move that does
/// not collide, the piece is again on the board in its shape, and the rest
/// of the board is untouched.
pub proof fn lemma_moved(game: GameView, dx: int, dy: int)
    requires
        game.wf(),
        game.placed(),
        game.stays_below_top(dy),
        !game.collides(dx, dy),
    ensures
        game.moved(dx, dy).wf(),
        game.moved(dx, dy).board.same_size(game.board),
        game.moved(dx, dy).placed(),
        game.moved(dx, dy).lifted() == game.lifted(),
{
    let after = game.moved(dx, dy);
    lemma_stamp_wf(game.board, game.coords, 4, EMPTY);
    lemma_stamp_wf(game.lifted(), game.shifted(dx, dy), 4, game.piece_id());
    lemma_lift_stamped(game.lifted(), game.shifted(dx, dy), game.piece_id());
}

/// An accepted rotation keeps the active piece in place: after it, the
/// piece is on the board in the shape of its next orientation, around the
/// same anchor, and the rest of the board is untouched.
pub proof fn lemma_rotated(game: GameView)
    requires
        game.wf(),
        game.placed(),
        game.can_rotate(),
    ensures
        game.rotated().wf(),
        game.rotated().board.same_size(game.board),
        game.rotated().placed(),
        game.rotated().lifted() == game.lifted(),
        game.rotated().anchor() == game.anchor(),
{
    let after = game.rotated();
    lemma_stamp_wf(game.board, game.coords, 4, EMPTY);
    lemma_stamp_wf(game.lifted(), game.turned(), 4, game.piece_id());
    lemma_lift_stamped(game.lifted(), game.turned(), game.piece_id());
    lemma_shape_step(game.piece, game.orientation, 0);
    lemma_shape_step(game.piece, game.orientation, 1);
    lemma_shape_step(game.piece, game.orientation, 2);
    lemma_shape_step(game.piece, game.orientation, 3);
}

/// The four cells of a piece in place are pairwise distinct.
pub proof fn lemma_placed_distinct(game: GameView, i: int, j: int)
    requires
        game.wf(),
        game.placed(),
        is_cell_index(i),
        is_cell_index(j),
        i != j,
    ensures
        game.coords[i] != game.coords[j],
{
    lemma_shape_distinct(game.piece, game.orientation, i, j);
}

/// A move by no distance changes nothing.
pub proof fn lemma_moved_nowhere(game: GameView)
    requires
        game.wf(),
        game.placed(),
    ensures
        game.moved(0, 0) == game,
{
    assert(game.shifted(0, 0) =~= game.coords);
    lemma_restamp(game);
}

/// Two probed moves in a row amount to one move by the sum of their
/// distances.
pub proof fn lemma_moved_twice(game: GameView, dx: int, dy: int, ex: int, ey: int)
    requires
        game.wf(),
        game.placed(),
        game.stays_below_top(dy),
        !game.collides(dx, dy),
    ensures
        game.moved(dx, dy).moved(ex, ey) == game.moved(dx + ex, dy + ey),
        game.moved(dx, dy).collides(ex, ey) == game.collides(dx + ex, dy + ey),
{
    lemma_moved(game, dx, dy);
    assert(game.moved(dx, dy).shifted(ex, ey) =~= game.shifted(dx + ex, dy + ey));
}

/// A game with its active piece in place is determined by the board
/// without the piece, the piece's type, orientation and anchor, and the
/// fields that do not concern the piece.
pub proof fn lemma_placed_determined(a: GameView, b: GameView)
    requires
        a.wf(),
        a.placed(),
        b.wf(),
        b.placed(),
        a.lifted() == b.lifted(),
        a.anchor() == b.anchor(),
        a.piece == b.piece,
        a.orientation == b.orientation,
        a.next_piece == b.next_piece,
        a.state == b.state,
        a.completed_lines == b.completed_lines,
        a.block_size == b.block_size,
    ensures
        a == b,
{
    assert(a.coords =~= b.coords);
    lemma_restamp(a);
    lemma_restamp(b);
}

/// Four accepted rotations in a row bring the game back to where it was:
/// every cell of the active piece returns to the coordinates it left, the
/// orientation comes full circle, and the board is as before.
pub proof fn lemma_four_rotations(game: GameView)
    requires
        game.wf(),
        game.placed(),
        game.can_rotate(),
        game.rotated().can_rotate(),
        game.rotated().rotated().can_rotate(),
        game.rotated().rotated().rotated().can_rotate(),
    ensures
        game.rotated().rotated().rotated().rotated() == game,
{
    let once = game.rotated();
    let twice = once.rotated();
    let thrice = twice.rotated();
    let full = thrice.rotated();
    lemma_rotated(game);
    lemma_rotated(once);
    lemma_rotated(twice);
    lemma_rotated(thrice);
    assert(full.orientation == game.orientation);
    lemma_placed_determined(full, game);
}

/// On a board with no occupied cell a piece always spawns.
pub proof fn lemma_spawn_on_empty_board(game: GameView)
    requires
        game.wf(),
        game.spawn_fits(),
        game.board.is_empty(),
    ensures
        !game.spawn_blocked(),
{
}

/// Every piece type has room to spawn on a board of at least four columns
/// and two rows.
pub proof fn lemma_spawn_fits(game: GameView)
    requires
        game.wf(),
        game.board.width >= 4,
        game.board.height() >= 2,
    ensures
        game.spawn_fits(),
        game.next_fits(),
{
    lemma_starting_offset_bounds(game.piece, 0);
    lemma_starting_offset_bounds(game.piece, 1);
    lemma_starting_offset_bounds(game.piece, 2);
    lemma_starting_offset_bounds(game.piece, 3);
    lemma_starting_offset_bounds(game.next_piece, 0);
    lemma_starting_offset_bounds(game.next_piece, 1);
    lemma_starting_offset_bounds(game.next_piece, 2);
    lemma_starting_offset_bounds(game.next_piece, 3);
}

/// The first spawn of a game always succeeds: on the empty board of a new
/// game with at least four columns and two rows, such as the standard 10 by
/// 20 board, no piece type finds its spawn cells occupied, and the spawned
/// piece is in place.
pub proof fn lemma_first_spawn_succeeds(
    width: int,
    height: int,
    block_size: int,
    completed_lines: int,
    piece: int,
    next_piece: int,
)
    requires
        GameView::initial(width, height, block_size, completed_lines, piece, next_piece).wf(),
        width >= 4,
        height >= 2,
    ensures
        GameView::initial(
            width,
            height,
            block_size,
            completed_lines,
            piece,
            next_piece,
        ).spawn_fits(),
        !GameView::initial(
            width,
            height,
            block_size,
            completed_lines,
            piece,
            next_piece,
        ).spawn_blocked(),
        GameView::initial(
            width,
            height,
            block_size,
            completed_lines,
            piece,
            next_piece,
        ).spawned().ready(),
{
    let game = GameView::initial(width, height, block_size, completed_lines, piece, next_piece);
    lemma_spawn_fits(game);
    lemma_spawn_on_empty_board(game);
    lemma_spawned(game);
}

} // verus!
