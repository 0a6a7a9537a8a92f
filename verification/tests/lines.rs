use tetris::block::{Block, Shape, BLOCK_SIZE};
use tetris::board::{Board, SCREEN_HEIGHT, SCREEN_WIDTH};

const EMPTY: [bool; SCREEN_WIDTH] = [false; SCREEN_WIDTH];
const FULL: [bool; SCREEN_WIDTH] = [true; SCREEN_WIDTH];

fn row(columns: &[usize]) -> [bool; SCREEN_WIDTH] {
    let mut r = EMPTY;
    for x in columns {
        r[*x] = true;
    }
    r
}

fn cells_in(board: &Board) -> usize {
    board.cells.iter().flatten().filter(|c| **c).count()
}

#[test]
fn is_line_full_wants_every_cell() {
    let mut board = Board::new();
    assert!(!board.is_line_full(19));
    board.cells[19] = FULL;
    assert!(board.is_line_full(19));
    assert!(!board.is_line_full(18));
    board.cells[19][11] = false;
    assert!(!board.is_line_full(19));
    board.cells[19][11] = true;
    board.cells[19][0] = false;
    assert!(!board.is_line_full(19));
    board.cells[0] = FULL;
    assert!(board.is_line_full(0));
}

#[test]
fn clear_line_moves_the_rows_above_down() {
    let mut board = Board::new();
    board.cells[16] = row(&[1]);
    board.cells[17] = row(&[2, 3]);
    board.cells[18] = FULL;
    board.cells[19] = row(&[5]);
    let before = board.cells;
    board.clear_line(18);
    assert_eq!(board.cells[0], EMPTY);
    for y in 1..=18 {
        assert_eq!(board.cells[y], before[y - 1]);
    }
    assert_eq!(board.cells[19], before[19]);
    assert_eq!(board.cells[18], row(&[2, 3]));
    assert_eq!(board.cells[17], row(&[1]));
}

#[test]
fn clear_line_of_a_full_row_takes_twelve_cells() {
    let mut board = Board::new();
    board.cells[3] = row(&[0, 1, 2]);
    board.cells[9] = row(&[4]);
    board.cells[10] = FULL;
    board.cells[11] = row(&[7, 8]);
    let before = cells_in(&board);
    assert_eq!(before, 18);
    let above = board.cells[9];
    board.clear_line(10);
    assert_eq!(cells_in(&board), before - SCREEN_WIDTH);
    assert_eq!(cells_in(&board), 6);
    assert_eq!(board.cells[10], above);
    assert_eq!(board.cells[4], row(&[0, 1, 2]));
    assert_eq!(board.cells[11], row(&[7, 8]));
}

#[test]
fn clear_line_at_the_top_only_empties_it() {
    let mut board = Board::new();
    board.cells[0] = FULL;
    board.cells[1] = row(&[3]);
    board.clear_line(0);
    assert_eq!(board.cells[0], EMPTY);
    assert_eq!(board.cells[1], row(&[3]));
    assert_eq!(cells_in(&board), 1);
}

#[test]
fn clear_line_of_a_row_with_gaps_takes_what_it_holds() {
    let mut board = Board::new();
    board.cells[18] = row(&[0]);
    board.cells[19] = row(&[1, 2, 3]);
    board.clear_line(19);
    assert_eq!(board.cells[19], row(&[0]));
    assert_eq!(board.cells[18], EMPTY);
    assert_eq!(cells_in(&board), 1);
}

#[test]
fn filling_the_last_gap_clears_the_bottom_row() {
    let mut board = Board::new();
    for x in 0..SCREEN_WIDTH {
        if x != 7 {
            board.cells[19][x] = true;
        }
    }
    let mut cells = [[false; BLOCK_SIZE]; BLOCK_SIZE];
    cells[0][0] = true;
    let piece = Block { cells };
    assert!(board.is_movable(7, 19, &piece));
    let second_to_last = board.cells[18];
    board.lock(&piece, 7, 19);
    assert!(board.is_line_full(19));
    board.clear_completed_lines();
    assert_eq!(board.cells[19], EMPTY);
    assert_eq!(board.cells[19], second_to_last);
    assert_eq!(cells_in(&board), 0);
}

#[test]
fn filling_the_last_gap_brings_the_row_above_down() {
    let mut board = Board::new();
    for x in 0..SCREEN_WIDTH {
        if x != 7 {
            board.cells[19][x] = true;
        }
    }
    board.cells[18] = row(&[0, 4]);
    // the upright I has its cells in column 2 of the matrix
    let upright = Block::generate(Shape::I).rotate();
    assert!(board.is_movable(5, 16, &upright));
    assert!(!board.is_movable(5, 17, &upright));
    board.lock(&upright, 5, 16);
    let second_to_last = board.cells[18];
    assert_eq!(second_to_last, row(&[0, 4, 7]));
    board.clear_completed_lines();
    assert_eq!(board.cells[19], second_to_last);
    assert_eq!(board.cells[18], row(&[7]));
    assert_eq!(board.cells[17], row(&[7]));
    assert_eq!(board.cells[16], EMPTY);
    assert_eq!(cells_in(&board), 5);
}

#[test]
fn clear_completed_lines_leaves_a_board_without_full_rows() {
    let mut board = Board::new();
    board.cells[19] = row(&[0, 1, 2, 3, 4, 5, 6, 7, 8, 9, 10]);
    board.cells[18] = row(&[11]);
    board.cells[0] = row(&[5]);
    let before = board.cells;
    board.clear_completed_lines();
    assert_eq!(board.cells, before);
}

#[test]
fn clear_completed_lines_on_the_empty_board() {
    let mut board = Board::new();
    board.clear_completed_lines();
    assert_eq!(board.cells, [EMPTY; SCREEN_HEIGHT]);
}

#[test]
fn clear_completed_lines_takes_two_rows_that_touch() {
    let mut board = Board::new();
    board.cells[16] = row(&[9]);
    board.cells[17] = row(&[1, 2]);
    board.cells[18] = FULL;
    board.cells[19] = FULL;
    board.clear_completed_lines();
    let mut expected = [EMPTY; SCREEN_HEIGHT];
    expected[18] = row(&[9]);
    expected[19] = row(&[1, 2]);
    assert_eq!(board.cells, expected);
}

#[test]
fn clear_completed_lines_takes_four_rows_at_once() {
    let mut board = Board::new();
    board.cells[15] = row(&[0]);
    for y in 16..20 {
        board.cells[y] = FULL;
    }
    board.clear_completed_lines();
    let mut expected = [EMPTY; SCREEN_HEIGHT];
    expected[19] = row(&[0]);
    assert_eq!(board.cells, expected);
}

#[test]
fn clear_completed_lines_takes_rows_that_lie_apart() {
    let mut board = Board::new();
    board.cells[12] = row(&[3]);
    board.cells[13] = FULL;
    board.cells[14] = row(&[4, 5]);
    board.cells[15] = FULL;
    board.cells[16] = FULL;
    board.cells[17] = row(&[6]);
    board.cells[18] = row(&[7, 8, 9]);
    board.cells[19] = FULL;
    let before = cells_in(&board);
    board.clear_completed_lines();
    let mut expected = [EMPTY; SCREEN_HEIGHT];
    expected[16] = row(&[3]);
    expected[17] = row(&[4, 5]);
    expected[18] = row(&[6]);
    expected[19] = row(&[7, 8, 9]);
    assert_eq!(board.cells, expected);
    assert_eq!(cells_in(&board), before - 4 * SCREEN_WIDTH);
}

#[test]
fn clear_completed_lines_on_a_full_board() {
    let mut board = Board { cells: [FULL; SCREEN_HEIGHT] };
    board.clear_completed_lines();
    assert_eq!(board.cells, [EMPTY; SCREEN_HEIGHT]);
}

#[test]
fn clear_completed_lines_takes_the_top_row() {
    let mut board = Board::new();
    board.cells[0] = FULL;
    board.cells[1] = row(&[2]);
    board.clear_completed_lines();
    let mut expected = [EMPTY; SCREEN_HEIGHT];
    expected[1] = row(&[2]);
    assert_eq!(board.cells, expected);
}

#[test]
fn clear_completed_lines_twice_changes_nothing_more() {
    let mut board = Board::new();
    board.cells[10] = row(&[0, 11]);
    board.cells[11] = FULL;
    board.cells[12] = FULL;
    board.cells[13] = row(&[5]);
    board.cells[19] = FULL;
    board.clear_completed_lines();
    let once = board.cells;
    for y in 0..SCREEN_HEIGHT {
        assert!(!board.is_line_full(y));
    }
    board.clear_completed_lines();
    assert_eq!(board.cells, once);
}

#[test]
fn clear_completed_lines_keeps_the_order_of_the_rows() {
    let mut board = Board::new();
    for y in 0..SCREEN_HEIGHT {
        board.cells[y] = if y % 2 == 0 { FULL } else { row(&[y % SCREEN_WIDTH]) };
    }
    board.clear_completed_lines();
    // the ten odd rows are kept, in their order, at the bottom
    for y in 0..10 {
        assert_eq!(board.cells[y], EMPTY);
    }
    for k in 0..10 {
        assert_eq!(board.cells[10 + k], row(&[(2 * k + 1) % SCREEN_WIDTH]));
    }
}
