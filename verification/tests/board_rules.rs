use genetic_tetris::tetris::{clear_lines, row_is_full, with_locked};
use genetic_tetris::{
    empty_board, pieces, Piece, PieceColor, TetrisState, BOARD_HEIGHT, BOARD_WIDTH,
};

fn state_with(piece: Piece) -> TetrisState {
    let mut state = TetrisState::new();
    state.current_piece = piece;
    state
}

fn i_piece() -> Piece {
    pieces()[0]
}

fn o_piece() -> Piece {
    pieces()[3]
}

#[test]
fn board_has_ten_columns_and_twenty_rows() {
    assert_eq!(BOARD_WIDTH, 10);
    assert_eq!(BOARD_HEIGHT, 20);
    let board = empty_board();
    assert_eq!(board.len(), 20);
    assert_eq!(board[0].len(), 10);
    for row in board.iter() {
        for cell in row.iter() {
            assert_eq!(*cell, PieceColor::Empty);
        }
    }
}

#[test]
fn new_state_is_fresh() {
    let state = TetrisState::new();
    assert_eq!(state.pos, [3, 2]);
    assert_eq!(state.ghost_pos, [0, 0]);
    assert_eq!(state.board, empty_board());
    assert_eq!(state.drop_count, 0);
    assert_eq!(state.sub_count, 0);
    assert_eq!(state.score, 0);
    assert!(!state.is_over);
    assert!(pieces().contains(&state.current_piece));
    assert!(pieces().contains(&state.next_piece));
}

#[test]
fn reset_clears_every_field() {
    let mut state = state_with(i_piece());
    state.board[19][0] = PieceColor::Red;
    state.pos = [0, 7];
    state.ghost_pos = [0, 18];
    state.drop_count = 77;
    state.sub_count = 5;
    state.score = 300;
    state.is_over = true;
    state.pressed_map.left = true;
    state.reset();
    assert_eq!(state.pos, [3, 2]);
    assert_eq!(state.ghost_pos, [0, 0]);
    assert_eq!(state.board, empty_board());
    assert_eq!(state.drop_count, 0);
    assert_eq!(state.sub_count, 0);
    assert_eq!(state.score, 0);
    assert!(!state.is_over);
    assert!(!state.pressed_map.left);
    assert!(pieces().contains(&state.current_piece));
    assert!(pieces().contains(&state.next_piece));
}

#[test]
fn is_in_map_tells_the_board_from_the_rest() {
    let state = TetrisState::new();
    assert!(state.is_in_map(0, 0));
    assert!(state.is_in_map(9, 19));
    assert!(!state.is_in_map(10, 0));
    assert!(!state.is_in_map(0, 20));
    assert!(!state.is_in_map(usize::MAX, 3));
}

#[test]
fn collides_tells_coloured_cells() {
    let mut state = TetrisState::new();
    state.board[4][7] = PieceColor::Green;
    assert!(state.collides(7, 4));
    assert!(!state.collides(4, 7));
}

#[test]
fn valid_move_needs_every_cell_on_the_board() {
    let state = state_with(i_piece());
    let piece = i_piece();
    assert!(state.is_valid_move([0, 0], &piece));
    assert!(state.is_valid_move([6, 19], &piece));
    assert!(!state.is_valid_move([-1, 0], &piece));
    assert!(!state.is_valid_move([7, 0], &piece));
    assert!(!state.is_valid_move([0, -1], &piece));
    assert!(!state.is_valid_move([0, 20], &piece));
}

#[test]
fn valid_move_needs_every_cell_empty() {
    let mut state = state_with(i_piece());
    state.board[5][4] = PieceColor::Red;
    let piece = i_piece();
    assert!(!state.is_valid_move([3, 5], &piece));
    assert!(!state.is_valid_move([1, 5], &piece));
    assert!(state.is_valid_move([0, 5], &piece));
    assert!(state.is_valid_move([5, 5], &piece));
    assert!(state.is_valid_move([3, 4], &piece));
}

#[test]
fn valid_move_is_false_far_off_the_board() {
    let state = state_with(i_piece());
    let piece = i_piece();
    assert!(!state.is_valid_move([i32::MAX, 0], &piece));
    assert!(!state.is_valid_move([0, i32::MAX], &piece));
    assert!(!state.is_valid_move([i32::MIN, i32::MIN], &piece));
    assert!(!state.is_valid_move([300, 0], &piece));
    assert!(!state.is_valid_move([256, 0], &piece));
}

#[test]
fn drop_ends_on_the_floor_of_an_empty_board() {
    let state = state_with(i_piece());
    assert_eq!(state.calc_drop_pos([3, 2], &i_piece()), [3, 19]);
    assert_eq!(state.calc_drop_pos([0, 0], &o_piece()), [0, 18]);
}

#[test]
fn drop_ends_on_top_of_what_is_locked() {
    let mut state = state_with(i_piece());
    state.board[10][4] = PieceColor::Red;
    assert_eq!(state.calc_drop_pos([3, 2], &i_piece()), [3, 9]);
    assert_eq!(state.calc_drop_pos([5, 2], &i_piece()), [5, 19]);
}

#[test]
fn drop_position_is_valid_and_cannot_go_lower() {
    let mut state = state_with(i_piece());
    state.board[12][1] = PieceColor::Blue;
    state.board[15][6] = PieceColor::Blue;
    for piece in pieces().iter() {
        for x in -2..10 {
            let start = [x, 2];
            if !state.is_valid_move(start, piece) {
                continue;
            }
            let rest = state.calc_drop_pos(start, piece);
            assert_eq!(rest[0], x);
            assert!(rest[1] >= 2);
            assert!(state.is_valid_move(rest, piece));
            assert!(!state.is_valid_move([rest[0], rest[1] + 1], piece));
        }
    }
}

#[test]
fn drop_from_a_place_without_room_stays_there() {
    let state = state_with(i_piece());
    assert_eq!(state.calc_drop_pos([3, 100], &i_piece()), [3, 100]);
    assert_eq!(state.calc_drop_pos([3, i32::MAX], &i_piece()), [3, i32::MAX]);
    assert_eq!(state.calc_drop_pos([-5, 2], &i_piece()), [-5, 2]);
}

#[test]
fn drop_from_above_the_board_falls_onto_it() {
    let state = state_with(i_piece());
    assert_eq!(state.calc_drop_pos([3, -1], &i_piece()), [3, 19]);
}

#[test]
fn move_goes_only_where_the_piece_fits() {
    let mut state = state_with(i_piece());
    state.move_current_piece(-1, 0);
    assert_eq!(state.pos, [2, 2]);
    state.move_current_piece(0, 1);
    assert_eq!(state.pos, [2, 3]);
    state.move_current_piece(-3, 0);
    assert_eq!(state.pos, [2, 3]);
    state.move_current_piece(4, 0);
    assert_eq!(state.pos, [6, 3]);
    state.move_current_piece(1, 0);
    assert_eq!(state.pos, [6, 3]);
    state.move_current_piece(i32::MAX, i32::MAX);
    assert_eq!(state.pos, [6, 3]);
}

#[test]
fn rotate_current_piece_turns_only_where_it_fits() {
    let mut state = state_with(i_piece());
    state.rotate_current_piece();
    assert_eq!(state.current_piece.shape, [(3, -1), (3, 0), (3, 1), (3, 2)]);
    let mut blocked = state_with(i_piece());
    blocked.board[3][6] = PieceColor::Red;
    blocked.rotate_current_piece();
    assert_eq!(blocked.current_piece, i_piece());
}

#[test]
fn ghost_is_where_the_piece_would_land() {
    let mut state = state_with(o_piece());
    state.board[19][3] = PieceColor::Red;
    state.update_ghost_pos();
    assert_eq!(state.ghost_pos, [3, 17]);
    assert_eq!(state.pos, [3, 2]);
}

#[test]
fn lock_writes_the_four_cells() {
    let mut state = state_with(i_piece());
    state.pos = [3, 19];
    state.lock_current_piece();
    for y in 0..BOARD_HEIGHT {
        for x in 0..BOARD_WIDTH {
            let expected = if y == 19 && (3..=6).contains(&x) {
                PieceColor::Teal
            } else {
                PieceColor::Empty
            };
            assert_eq!(state.board[y][x], expected);
        }
    }
}

#[test]
fn with_locked_leaves_the_given_board_alone() {
    let board = empty_board();
    let after = with_locked(board, [0, 18], &o_piece());
    assert_eq!(board, empty_board());
    assert_eq!(after[18][0], PieceColor::Yellow);
    assert_eq!(after[18][1], PieceColor::Yellow);
    assert_eq!(after[19][0], PieceColor::Yellow);
    assert_eq!(after[19][1], PieceColor::Yellow);
    assert_eq!(after[17][0], PieceColor::Empty);
    assert_eq!(after[19][2], PieceColor::Empty);
}

#[test]
fn row_is_full_wants_every_cell() {
    let mut row = [PieceColor::Red; 10];
    assert!(row_is_full(&row));
    row[9] = PieceColor::Empty;
    assert!(!row_is_full(&row));
    assert!(!row_is_full(&[PieceColor::Empty; 10]));
}

#[test]
fn a_single_full_row_is_cleared() {
    let mut state = TetrisState::new();
    state.score = 7;
    state.board[19] = [PieceColor::Red; 10];
    state.board[18][2] = PieceColor::Blue;
    state.board[5][7] = PieceColor::Green;
    state.propagate_lines();
    let mut expected = empty_board();
    expected[19][2] = PieceColor::Blue;
    expected[6][7] = PieceColor::Green;
    assert_eq!(state.board, expected);
    assert_eq!(state.score, 107);
}

#[test]
fn rows_beneath_a_cleared_row_stay() {
    let mut state = TetrisState::new();
    state.board[10] = [PieceColor::Red; 10];
    state.board[15][1] = PieceColor::Blue;
    state.board[9][4] = PieceColor::Green;
    state.board[0][0] = PieceColor::Purple;
    state.propagate_lines();
    let mut expected = empty_board();
    expected[15][1] = PieceColor::Blue;
    expected[10][4] = PieceColor::Green;
    expected[1][0] = PieceColor::Purple;
    assert_eq!(state.board, expected);
    assert_eq!(state.score, 100);
}

#[test]
fn each_cleared_row_earns_the_same() {
    let mut state = TetrisState::new();
    state.board[19] = [PieceColor::Red; 10];
    state.board[17] = [PieceColor::Red; 10];
    state.board[18][3] = PieceColor::Blue;
    state.board[16][5] = PieceColor::Green;
    state.propagate_lines();
    let mut expected = empty_board();
    expected[19][3] = PieceColor::Blue;
    expected[18][5] = PieceColor::Green;
    assert_eq!(state.board, expected);
    assert_eq!(state.score, 200);
}

#[test]
fn four_rows_at_once_earn_four_hundred() {
    let mut state = TetrisState::new();
    for y in 16..20 {
        state.board[y] = [PieceColor::Teal; 10];
    }
    state.board[15][9] = PieceColor::Orange;
    state.propagate_lines();
    let mut expected = empty_board();
    expected[19][9] = PieceColor::Orange;
    assert_eq!(state.board, expected);
    assert_eq!(state.score, 400);
}

#[test]
fn nothing_is_cleared_without_a_full_row() {
    let mut state = TetrisState::new();
    state.board[19] = [PieceColor::Red; 10];
    state.board[19][4] = PieceColor::Empty;
    let before = state.board;
    state.propagate_lines();
    assert_eq!(state.board, before);
    assert_eq!(state.score, 0);
}

#[test]
fn clear_lines_counts_the_rows() {
    let mut board = empty_board();
    board[3] = [PieceColor::Red; 10];
    board[4] = [PieceColor::Red; 10];
    board[2][2] = PieceColor::Blue;
    assert_eq!(clear_lines(&mut board), 2);
    let mut expected = empty_board();
    expected[4][2] = PieceColor::Blue;
    assert_eq!(board, expected);
    assert_eq!(clear_lines(&mut board), 0);
}
