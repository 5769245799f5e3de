use genetic_tetris::{
    ceil_gap_heuristic, empty_board, height_heuristic, heuristics, line_completion_heuristic,
    loss, surface_roughness_heuristic, GeneticAgent, PieceColor, N_HEURISTICS,
};

#[test]
fn an_empty_board_scores_nothing() {
    let board = empty_board();
    assert_eq!(N_HEURISTICS, 4);
    assert_eq!(surface_roughness_heuristic(&board), 0);
    assert_eq!(height_heuristic(&board), 0);
    assert_eq!(line_completion_heuristic(&board), 0);
    assert_eq!(ceil_gap_heuristic(&board), 0);
    assert_eq!(heuristics(&board), [0, 0, 0, 0]);
    assert_eq!(loss(&[5, -7, 11, 13], &board), 0);
}

#[test]
fn roughness_sums_the_steps_of_the_skyline() {
    let mut board = empty_board();
    board[19][0] = PieceColor::Red;
    assert_eq!(surface_roughness_heuristic(&board), 1);
    board[10][4] = PieceColor::Red;
    assert_eq!(surface_roughness_heuristic(&board), 21);
    board[10][5] = PieceColor::Red;
    assert_eq!(surface_roughness_heuristic(&board), 21);
    board[0][9] = PieceColor::Red;
    assert_eq!(surface_roughness_heuristic(&board), 41);
}

#[test]
fn roughness_is_at_most_nine_full_steps() {
    let mut board = empty_board();
    for x in (0..10).step_by(2) {
        board[0][x] = PieceColor::Red;
    }
    assert_eq!(surface_roughness_heuristic(&board), 180);
}

#[test]
fn roughness_looks_only_at_the_top_of_a_column() {
    let mut board = empty_board();
    board[5][3] = PieceColor::Red;
    board[12][3] = PieceColor::Red;
    board[19][3] = PieceColor::Red;
    assert_eq!(surface_roughness_heuristic(&board), 30);
}

#[test]
fn height_counts_rows_from_the_floor() {
    let mut board = empty_board();
    board[19][3] = PieceColor::Red;
    assert_eq!(height_heuristic(&board), 1);
    board[10][8] = PieceColor::Red;
    assert_eq!(height_heuristic(&board), 10);
    board[0][0] = PieceColor::Red;
    assert_eq!(height_heuristic(&board), 20);
}

#[test]
fn full_rows_are_counted() {
    let mut board = empty_board();
    board[19] = [PieceColor::Red; 10];
    assert_eq!(line_completion_heuristic(&board), 1);
    board[3] = [PieceColor::Blue; 10];
    assert_eq!(line_completion_heuristic(&board), 2);
    board[3][9] = PieceColor::Empty;
    assert_eq!(line_completion_heuristic(&board), 1);
}

#[test]
fn gaps_are_the_empty_runs_under_coloured_cells() {
    let mut board = empty_board();
    board[19][2] = PieceColor::Red;
    assert_eq!(ceil_gap_heuristic(&board), 0);
    board[10][4] = PieceColor::Red;
    assert_eq!(ceil_gap_heuristic(&board), 9);
    board[15][4] = PieceColor::Red;
    assert_eq!(ceil_gap_heuristic(&board), 8);
    board[16][4] = PieceColor::Red;
    assert_eq!(ceil_gap_heuristic(&board), 7);
    board[0][9] = PieceColor::Red;
    assert_eq!(ceil_gap_heuristic(&board), 26);
}

#[test]
fn heuristics_come_in_a_fixed_order() {
    let mut board = empty_board();
    board[19] = [PieceColor::Red; 10];
    board[17][0] = PieceColor::Blue;
    assert_eq!(heuristics(&board), [2, 3, 1, 1]);
}

#[test]
fn loss_is_the_weighted_sum() {
    let mut board = empty_board();
    board[19] = [PieceColor::Red; 10];
    board[17][0] = PieceColor::Blue;
    assert_eq!(loss(&[1000, 2000, 3000, 4000], &board), 2000 + 6000 + 3000 + 4000);
    assert_eq!(loss(&[-1, 0, 0, 0], &board), -2);
    assert_eq!(loss(&[0, 0, -5, 2], &board), -3);
    let agent = GeneticAgent { weights: [1000, 2000, 3000, 4000] };
    assert_eq!(agent.loss_function(&board), 15000);
}

#[test]
fn loss_has_room_for_the_largest_weights() {
    let mut board = empty_board();
    for x in (0..10).step_by(2) {
        board[0][x] = PieceColor::Red;
    }
    let expected = (i64::MAX as i128) * 180 + (i64::MIN as i128) * 20 + (i64::MAX as i128) * 95;
    assert_eq!(loss(&[i64::MAX, i64::MIN, 0, i64::MAX], &board), expected);
}
