use tetris::board::Board;

fn fill_row(board: &mut Board, y: u32, value: u8) {
    for x in 0..board.width() {
        board.set_cell(x, y, value);
    }
}

fn rows_of(board: &Board) -> Vec<Vec<u8>> {
    (0..board.height())
        .map(|y| (0..board.width()).map(|x| board.cell(x, y)).collect())
        .collect()
}

fn occupied(board: &Board) -> u32 {
    rows_of(board)
        .iter()
        .map(|row| row.iter().filter(|cell| **cell != 0).count() as u32)
        .sum()
}

fn complete_rows(board: &Board) -> u32 {
    (0..board.height()).filter(|y| board.is_row_complete(*y)).count() as u32
}

#[test]
fn new_board_is_empty() {
    let board = Board::new(10, 20);
    assert_eq!(board.width(), 10);
    assert_eq!(board.height(), 20);
    for y in 0..20 {
        for x in 0..10 {
            assert_eq!(board.cell(x, y), 0);
        }
    }
}

#[test]
fn new_board_may_have_no_cells() {
    let flat = Board::new(5, 0);
    assert_eq!(flat.width(), 5);
    assert_eq!(flat.height(), 0);
    let thin = Board::new(0, 3);
    assert_eq!(thin.width(), 0);
    assert_eq!(thin.height(), 3);
}

#[test]
fn set_cell_overwrites_one_cell() {
    let mut board = Board::new(10, 20);
    board.set_cell(3, 7, 5);
    assert_eq!(board.cell(3, 7), 5);
    board.set_cell(3, 7, 2);
    assert_eq!(board.cell(3, 7), 2);
    board.set_cell(3, 7, 0);
    assert_eq!(board.cell(3, 7), 0);
    board.set_cell(9, 19, 7);
    board.set_cell(0, 0, 1);
    for y in 0..20 {
        for x in 0..10 {
            let expected = match (x, y) {
                (9, 19) => 7,
                (0, 0) => 1,
                _ => 0,
            };
            assert_eq!(board.cell(x, y), expected);
        }
    }
}

#[test]
fn row_is_complete_only_without_holes() {
    let mut board = Board::new(4, 3);
    assert!(!board.is_row_complete(2));
    board.set_cell(0, 2, 1);
    board.set_cell(1, 2, 2);
    board.set_cell(2, 2, 3);
    assert!(!board.is_row_complete(2));
    board.set_cell(3, 2, 4);
    assert!(board.is_row_complete(2));
    assert!(!board.is_row_complete(1));
    board.set_cell(0, 2, 0);
    assert!(!board.is_row_complete(2));
}

#[test]
fn clearing_a_board_without_complete_rows_changes_nothing() {
    let mut board = Board::new(10, 20);
    fill_row(&mut board, 19, 3);
    board.set_cell(4, 19, 0);
    board.set_cell(2, 18, 6);
    let before = board.clone();
    assert_eq!(board.clear_completed_rows(), 0);
    assert_eq!(board, before);
}

#[test]
fn filling_the_last_hole_of_the_bottom_row_clears_it() {
    let mut board = Board::new(10, 20);
    fill_row(&mut board, 19, 3);
    board.set_cell(4, 19, 0);
    board.set_cell(2, 18, 6);
    board.set_cell(7, 0, 1);
    assert_eq!(board.clear_completed_rows(), 0);

    board.set_cell(4, 19, 5);
    let before = rows_of(&board);
    assert_eq!(board.clear_completed_rows(), 1);
    let after = rows_of(&board);
    // Row 0 becomes empty and every other row holds what the row above it held.
    assert_eq!(after[0], vec![0; 10]);
    for y in 1..20 {
        assert_eq!(after[y], before[y - 1]);
    }
    assert_eq!(board.cell(2, 19), 6);
    assert_eq!(board.cell(7, 1), 1);
    assert_eq!(occupied(&board), 2);
}

#[test]
fn clearing_the_only_content_leaves_an_empty_board() {
    let mut board = Board::new(10, 20);
    fill_row(&mut board, 19, 2);
    assert_eq!(board.clear_completed_rows(), 1);
    assert_eq!(board, Board::new(10, 20));
}

#[test]
fn adjacent_complete_rows_are_both_cleared() {
    let mut board = Board::new(10, 20);
    fill_row(&mut board, 19, 1);
    fill_row(&mut board, 18, 2);
    board.set_cell(0, 17, 4);
    assert_eq!(board.clear_completed_rows(), 2);
    let mut expected = Board::new(10, 20);
    expected.set_cell(0, 19, 4);
    assert_eq!(board, expected);
}

#[test]
fn complete_rows_between_incomplete_ones_are_cleared() {
    let mut board = Board::new(10, 20);
    fill_row(&mut board, 19, 1);
    board.set_cell(0, 18, 2);
    board.set_cell(1, 18, 2);
    fill_row(&mut board, 17, 3);
    board.set_cell(5, 16, 4);
    assert_eq!(board.clear_completed_rows(), 2);
    let mut expected = Board::new(10, 20);
    expected.set_cell(0, 19, 2);
    expected.set_cell(1, 19, 2);
    expected.set_cell(5, 18, 4);
    assert_eq!(board, expected);
}

#[test]
fn a_full_board_is_cleared_entirely() {
    let mut board = Board::new(6, 5);
    for y in 0..5 {
        fill_row(&mut board, y, 7);
    }
    assert_eq!(board.clear_completed_rows(), 5);
    assert_eq!(board, Board::new(6, 5));
}

#[test]
fn a_complete_top_row_is_cleared() {
    let mut board = Board::new(3, 4);
    fill_row(&mut board, 0, 1);
    board.set_cell(1, 3, 2);
    assert_eq!(board.clear_completed_rows(), 1);
    let mut expected = Board::new(3, 4);
    expected.set_cell(1, 3, 2);
    assert_eq!(board, expected);
}

#[test]
fn no_complete_row_remains_after_clearing() {
    let mut board = Board::new(5, 8);
    for y in [1u32, 3, 4, 7] {
        fill_row(&mut board, y, 2);
    }
    board.set_cell(2, 0, 1);
    board.set_cell(4, 5, 3);
    assert_eq!(complete_rows(&board), 4);
    assert_eq!(board.clear_completed_rows(), 4);
    assert_eq!(complete_rows(&board), 0);
    for y in 0..8 {
        assert!(!board.is_row_complete(y));
    }
    assert_eq!(board.clear_completed_rows(), 0);
}

#[test]
fn clearing_removes_width_cells_per_cleared_row() {
    let mut board = Board::new(5, 8);
    for y in [2u32, 6, 7] {
        fill_row(&mut board, y, 4);
    }
    board.set_cell(0, 0, 1);
    board.set_cell(1, 3, 1);
    board.set_cell(2, 3, 1);
    board.set_cell(4, 5, 6);
    let before = occupied(&board);
    assert_eq!(before, 19);
    let deleted = board.clear_completed_rows();
    assert_eq!(deleted, 3);
    assert_eq!(occupied(&board), before - deleted * board.width());
    assert_eq!(occupied(&board), 4);
}

#[test]
fn rows_without_cells_all_count_as_complete() {
    let mut board = Board::new(0, 3);
    assert!(board.is_row_complete(0));
    assert_eq!(board.clear_completed_rows(), 3);
    assert_eq!(board.height(), 3);
    assert_eq!(board.width(), 0);
}

#[test]
fn a_board_without_rows_has_nothing_to_clear() {
    let mut board = Board::new(5, 0);
    assert_eq!(board.clear_completed_rows(), 0);
    assert_eq!(board.height(), 0);
}

#[test]
fn dimensions_survive_clearing() {
    let mut board = Board::new(7, 9);
    fill_row(&mut board, 8, 1);
    fill_row(&mut board, 4, 1);
    board.clear_completed_rows();
    assert_eq!(board.width(), 7);
    assert_eq!(board.height(), 9);
    for row in rows_of(&board) {
        assert_eq!(row.len(), 7);
    }
}
