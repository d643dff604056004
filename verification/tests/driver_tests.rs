use tetris::board::Board;
use tetris::driver::{starting_lines, Action, Input};
use tetris::game::{GameContext, State};
use tetris::geometry::{NUM_TETROMINOS, STARTING_POSITIONS};
use tetris::random::random_piece;

fn spawned_on(width: u32, height: u32, piece: u8, next: u8) -> GameContext {
    let mut game = GameContext::with_pieces(width, height, 64, 0, piece, next);
    assert!(!game.add_board_piece());
    game
}

fn occupied_cells(game: &GameContext) -> Vec<(u32, u32, u8)> {
    let mut cells = Vec::new();
    for y in 0..game.height() {
        for x in 0..game.width() {
            if game.cell(x, y) != 0 {
                cells.push((x, y, game.cell(x, y)));
            }
        }
    }
    cells
}

#[test]
fn starting_level_four_gives_twelve_lines() {
    let lines = starting_lines(4);
    assert_eq!(lines, 12);
    let game = GameContext::with_pieces(10, 20, 64, lines, 0, 0);
    assert_eq!(game.completed_lines(), 12);
    assert_eq!(game.level(), 4);
}

#[test]
fn starting_level_is_clamped_to_fifteen() {
    assert_eq!(starting_lines(0), 0);
    assert_eq!(starting_lines(1), 3);
    assert_eq!(starting_lines(15), 45);
    assert_eq!(starting_lines(16), 45);
    assert_eq!(starting_lines(1000), 45);
    assert_eq!(starting_lines(u32::MAX), 45);
    for level in 0..=15 {
        let game = GameContext::with_pieces(10, 20, 64, starting_lines(level), 0, 0);
        assert_eq!(game.level(), level);
    }
}

#[test]
fn random_pieces_are_valid_and_varied() {
    let mut seen = [false; NUM_TETROMINOS];
    for _ in 0..2000 {
        let piece = random_piece();
        assert!((piece as usize) < NUM_TETROMINOS);
        seen[piece as usize] = true;
    }
    assert_eq!(seen, [true; NUM_TETROMINOS]);
}

#[test]
fn try_move_moves_only_when_free() {
    let mut game = spawned_on(10, 20, 2, 0);
    assert!(game.try_move(-3, 0));
    assert_eq!(game.current_coords(), [[0, 0], [1, 0], [2, 0], [3, 0]]);
    let before = game.clone();
    assert!(!game.try_move(-1, 0));
    assert_eq!(game, before);
    assert!(game.try_move(6, 19));
    assert_eq!(game.current_coords(), [[6, 19], [7, 19], [8, 19], [9, 19]]);
    assert!(!game.try_move(0, 1));
    assert!(!game.try_move(1, 0));
}

#[test]
fn hard_drop_lands_on_the_floor() {
    let mut game = spawned_on(10, 20, 2, 0);
    assert!(game.hard_drop());
    assert_eq!(game.current_coords(), [[3, 19], [4, 19], [5, 19], [6, 19]]);
    assert_eq!(occupied_cells(&game), vec![(3, 19, 3), (4, 19, 3), (5, 19, 3), (6, 19, 3)]);
    assert!(game.collision_detected(0, 1));
    assert!(game.piece_in_place());
    let before = game.clone();
    assert!(!game.hard_drop());
    assert_eq!(game, before);
}

#[test]
fn hard_drop_lands_on_the_highest_block_below() {
    let mut board = Board::new(10, 20);
    board.set_cell(6, 12, 1);
    board.set_cell(3, 15, 1);
    let mut game = GameContext::with_board(board, 64, 0, 2, 0);
    assert!(!game.add_board_piece());
    assert!(game.hard_drop());
    assert_eq!(game.current_coords(), [[3, 11], [4, 11], [5, 11], [6, 11]]);
    assert_eq!(
        occupied_cells(&game),
        vec![(3, 11, 3), (4, 11, 3), (5, 11, 3), (6, 11, 3), (6, 12, 1), (3, 15, 1)]
    );
}

#[test]
fn arrow_inputs_move_the_piece() {
    let mut game = spawned_on(10, 20, 2, 0);
    assert_eq!(game.handle_input(Input::MoveLeft), Action::Redraw);
    assert_eq!(game.current_coords(), [[2, 0], [3, 0], [4, 0], [5, 0]]);
    assert_eq!(game.handle_input(Input::MoveLeft), Action::Redraw);
    assert_eq!(game.handle_input(Input::MoveLeft), Action::Redraw);
    assert_eq!(game.current_coords(), [[0, 0], [1, 0], [2, 0], [3, 0]]);
    let at_wall = game.clone();
    assert_eq!(game.handle_input(Input::MoveLeft), Action::Nothing);
    assert_eq!(game, at_wall);
    assert_eq!(game.handle_input(Input::MoveRight), Action::Redraw);
    assert_eq!(game.current_coords(), [[1, 0], [2, 0], [3, 0], [4, 0]]);
    assert_eq!(game.handle_input(Input::SoftDrop), Action::Redraw);
    assert_eq!(game.current_coords(), [[1, 1], [2, 1], [3, 1], [4, 1]]);
    assert_eq!(game.handle_input(Input::HardDrop), Action::Redraw);
    assert_eq!(game.current_coords(), [[1, 19], [2, 19], [3, 19], [4, 19]]);
    let at_floor = game.clone();
    assert_eq!(game.handle_input(Input::HardDrop), Action::Nothing);
    assert_eq!(game.handle_input(Input::SoftDrop), Action::Nothing);
    assert_eq!(game, at_floor);
}

#[test]
fn rotate_input_turns_the_piece_when_there_is_room() {
    let mut game = spawned_on(10, 20, 2, 0);
    let before = game.clone();
    assert_eq!(game.handle_input(Input::Rotate), Action::Nothing);
    assert_eq!(game, before);
    assert_eq!(game.handle_input(Input::SoftDrop), Action::Redraw);
    assert_eq!(game.handle_input(Input::SoftDrop), Action::Redraw);
    assert_eq!(game.handle_input(Input::Rotate), Action::Redraw);
    assert_eq!(game.current_coords(), [[5, 0], [5, 1], [5, 2], [5, 3]]);
    assert_eq!(game.current_orientation(), 1);
}

#[test]
fn pause_freezes_the_piece() {
    let mut game = spawned_on(10, 20, 2, 0);
    assert_eq!(game.handle_input(Input::TogglePause), Action::Nothing);
    assert_eq!(game.state(), State::PAUSE);
    let paused = game.clone();
    for input in [
        Input::MoveLeft,
        Input::MoveRight,
        Input::SoftDrop,
        Input::HardDrop,
        Input::Rotate,
    ] {
        assert_eq!(game.handle_input(input), Action::Nothing);
        assert_eq!(game, paused);
    }
    assert!(!game.tick(1000, 0));
    assert_eq!(game, paused);
    assert_eq!(game.handle_input(Input::TogglePause), Action::Nothing);
    assert_eq!(game.state(), State::PLAY);
    assert_eq!(game.handle_input(Input::MoveLeft), Action::Redraw);
}

#[test]
fn quit_and_track_selection_are_passed_on_in_any_state() {
    let mut game = spawned_on(10, 20, 2, 0);
    for _ in 0..2 {
        let before = game.clone();
        assert_eq!(game.handle_input(Input::Quit), Action::Quit);
        assert_eq!(game.handle_input(Input::SelectTrack(1)), Action::PlayTrack(1));
        assert_eq!(game.handle_input(Input::SelectTrack(3)), Action::PlayTrack(3));
        assert_eq!(game, before);
        game.handle_input(Input::TogglePause);
    }
}

#[test]
fn drop_interval_shrinks_with_the_level() {
    for (lines, ticks) in
        [(0, 15), (2, 15), (3, 14), (12, 11), (39, 2), (41, 2), (42, 1), (45, 1), (48, 1), (3000, 1)]
    {
        let game = GameContext::with_pieces(10, 20, 64, lines, 0, 0);
        assert_eq!(game.drop_interval(), ticks);
    }
    let game = GameContext::with_pieces(10, 20, 64, u32::MAX, 0, 0);
    assert_eq!(game.drop_interval(), 1);
}

#[test]
fn drop_is_due_after_the_interval() {
    let game = GameContext::with_pieces(10, 20, 64, 0, 0, 0);
    assert!(!game.drop_due(0, 0));
    assert!(!game.drop_due(14, 0));
    assert!(game.drop_due(15, 0));
    assert!(game.drop_due(16, 0));
    assert!(!game.drop_due(114, 100));
    assert!(game.drop_due(115, 100));
    assert!(!game.drop_due(u32::MAX, u32::MAX));
    assert!(!game.drop_due(u32::MAX, u32::MAX - 14));
    assert!(game.drop_due(u32::MAX, u32::MAX - 15));
    let fast = GameContext::with_pieces(10, 20, 64, 45, 0, 0);
    assert!(!fast.drop_due(100, 100));
    assert!(fast.drop_due(101, 100));
}

#[test]
fn step_lowers_the_piece_by_one_row() {
    let mut game = spawned_on(10, 20, 2, 4);
    game.step(5);
    assert_eq!(game.current_coords(), [[3, 1], [4, 1], [5, 1], [6, 1]]);
    assert_eq!(game.current_piece(), 2);
    assert_eq!(game.next_piece(), 4);
    assert_eq!(game.state(), State::PLAY);
}

#[test]
fn step_locks_a_resting_piece() {
    let mut game = spawned_on(10, 20, 2, 4);
    assert!(game.hard_drop());
    game.step(5);
    assert_eq!(game.current_piece(), 4);
    assert_eq!(game.next_piece(), 5);
    assert_eq!(game.current_coords(), [[4, 1], [5, 1], [6, 1], [6, 0]]);
    assert_eq!(
        occupied_cells(&game),
        vec![
            (6, 0, 5),
            (4, 1, 5),
            (5, 1, 5),
            (6, 1, 5),
            (3, 19, 3),
            (4, 19, 3),
            (5, 19, 3),
            (6, 19, 3)
        ]
    );
    assert_eq!(game.state(), State::PLAY);
    assert_eq!(game.completed_lines(), 0);
}

#[test]
fn step_clears_the_rows_that_locking_completes() {
    let mut game = spawned_on(4, 6, 2, 6);
    assert!(game.hard_drop());
    game.step(1);
    assert_eq!(game.completed_lines(), 1);
    assert_eq!(game.current_piece(), 6);
    assert_eq!(occupied_cells(&game), vec![(1, 0, 7), (2, 0, 7), (1, 1, 7), (2, 1, 7)]);
}

#[test]
fn tick_waits_until_the_drop_is_due() {
    let mut game = spawned_on(10, 20, 2, 4);
    let before = game.clone();
    assert!(!game.tick(14, 0));
    assert_eq!(game, before);
    assert!(game.tick(15, 0));
    assert_eq!(game.current_coords(), [[3, 1], [4, 1], [5, 1], [6, 1]]);
    assert!(!game.tick(29, 15));
    assert!(game.tick(30, 15));
    assert_eq!(game.current_coords(), [[3, 2], [4, 2], [5, 2], [6, 2]]);
    assert_eq!(game.next_piece(), 4);
}

#[test]
fn tick_locks_a_resting_piece_and_draws_a_new_next_piece() {
    for _ in 0..50 {
        let mut game = spawned_on(10, 20, 2, 4);
        assert!(game.hard_drop());
        assert!(game.tick(15, 0));
        assert_eq!(game.state(), State::PLAY);
        assert_eq!(game.current_piece(), 4);
        assert!((game.next_piece() as usize) < NUM_TETROMINOS);
        assert_eq!(game.current_coords(), [[4, 1], [5, 1], [6, 1], [6, 0]]);
        assert!(game.piece_in_place());
        assert_eq!(occupied_cells(&game).len(), 8);
    }
}

#[test]
fn game_over_is_terminal() {
    let mut game = spawned_on(4, 2, 6, 6);
    assert!(game.tick(15, 0));
    assert_eq!(game.state(), State::GAMEOVER);
    let over = game.clone();
    for input in [
        Input::MoveLeft,
        Input::MoveRight,
        Input::SoftDrop,
        Input::HardDrop,
        Input::Rotate,
        Input::TogglePause,
    ] {
        assert_eq!(game.handle_input(input), Action::Nothing);
        assert_eq!(game, over);
    }
    assert!(!game.tick(1000, 0));
    assert_eq!(game, over);
    assert_eq!(game.handle_input(Input::Quit), Action::Quit);
    assert_eq!(game.handle_input(Input::SelectTrack(2)), Action::PlayTrack(2));
    assert_eq!(game, over);
}

#[test]
fn a_whole_game_ends_with_a_full_well() {
    let mut game = GameContext::new(10, 20, 64, starting_lines(15));
    assert!(!game.add_board_piece());
    let mut ticks = 0u32;
    while game.state() != State::GAMEOVER {
        ticks += 1;
        assert!(ticks < 10_000);
        assert!(game.piece_in_place());
        assert!(game.tick(ticks, ticks - 1));
    }
    // Nothing was ever moved sideways, so no row was completed.
    assert_eq!(game.completed_lines(), 45);
    // The piece that could not be placed found one of its spawn cells taken.
    let piece = game.current_piece() as usize;
    assert!(STARTING_POSITIONS[piece]
        .iter()
        .any(|c| game.cell((5 + c[0]) as u32, c[1] as u32) != 0));
}
