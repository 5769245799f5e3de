use genetic_tetris::tetris::LOSS_CEILING;
use genetic_tetris::{pieces, Agent, GeneticAgent, KeyCode, Piece, PieceColor, TetrisState};

fn state_with(piece: Piece) -> TetrisState {
    let mut state = TetrisState::new();
    state.current_piece = piece;
    state
}

fn turned(piece: Piece, turns: u8) -> Piece {
    let mut piece = piece;
    for _ in 0..turns {
        piece.rotate();
    }
    piece
}

#[test]
fn roughness_alone_sends_the_long_piece_to_the_wall() {
    let mut state = state_with(pieces()[0]);
    let weights = [1000, 0, 0, 0];
    assert_eq!(state.best_placement(&weights), Some((0, 0)));
    assert_eq!(state.pick_move_by_key(&weights), Some(KeyCode::Left));
    state.pos = [1, 2];
    assert_eq!(state.pick_move_by_key(&weights), Some(KeyCode::Left));
    state.pos = [0, 2];
    assert_eq!(state.best_placement(&weights), Some((0, 0)));
    assert_eq!(state.pick_move_by_key(&weights), None);
}

#[test]
fn the_first_of_equal_losses_wins() {
    let state = state_with(pieces()[0]);
    assert_eq!(state.best_placement(&[0, 0, 0, 0]), Some((0, 0)));
    assert_eq!(state.best_placement(&[0, 1000, 0, 0]), Some((0, 0)));
}

#[test]
fn a_better_turn_asks_for_up() {
    let state = state_with(pieces()[0]);
    let weights = [0, -1000, 0, 0];
    assert_eq!(state.best_placement(&weights), Some((1, -3)));
    assert_eq!(state.pick_move_by_key(&weights), Some(KeyCode::Up));
}

#[test]
fn a_column_to_the_right_asks_for_right() {
    let mut state = state_with(pieces()[3]);
    for x in 0..8 {
        state.board[19][x] = PieceColor::Red;
    }
    let weights = [0, 1000, 0, 0];
    assert_eq!(state.best_placement(&weights), Some((0, 8)));
    assert_eq!(state.pick_move_by_key(&weights), Some(KeyCode::Right));
}

#[test]
fn the_search_leaves_the_game_as_it_was() {
    let mut state = state_with(pieces()[5]);
    state.board[19][4] = PieceColor::Red;
    let before = state.clone();
    let _ = state.pick_move_by_key(&[1000, 2000, -3000, 4000]);
    assert_eq!(state.board, before.board);
    assert_eq!(state.pos, before.pos);
    assert_eq!(state.current_piece, before.current_piece);
    assert_eq!(state.score, before.score);
}

#[test]
fn the_placement_found_is_a_valid_move() {
    let weight_sets: [[i64; 4]; 4] =
        [[1000, 0, 0, 0], [0, -1000, 0, 0], [300, 200, -5000, 900], [-1, -1, -1, -1]];
    for piece in pieces().iter() {
        let mut state = state_with(*piece);
        state.board[19][0] = PieceColor::Red;
        state.board[18][0] = PieceColor::Red;
        state.board[19][5] = PieceColor::Red;
        state.board[10][9] = PieceColor::Red;
        for weights in weight_sets.iter() {
            let found = state.best_placement(weights);
            assert!(found.is_some());
            let (turns, x) = found.unwrap();
            assert!(turns < 4);
            let placed = turned(*piece, turns);
            assert!(state.is_valid_move([x, state.pos[1]], &placed));
            let rest = state.calc_drop_pos([x, state.pos[1]], &placed);
            assert!(state.is_valid_move(rest, &placed));
        }
    }
}

#[test]
fn nothing_is_found_where_nothing_fits() {
    let mut state = state_with(pieces()[0]);
    for y in 0..6 {
        state.board[y] = [PieceColor::Red; 10];
    }
    assert_eq!(state.best_placement(&[1000, 0, 0, 0]), None);
    assert_eq!(state.pick_move_by_key(&[1000, 0, 0, 0]), None);
}

#[test]
fn a_loss_at_the_ceiling_is_not_taken() {
    let state = state_with(pieces()[0]);
    assert_eq!(LOSS_CEILING, 1_000_000_000_000);
    assert_eq!(state.best_placement(&[1_000_000_000_000, 0, 0, 0]), None);
    assert_eq!(state.pick_move_by_key(&[1_000_000_000_000, 0, 0, 0]), None);
    assert_eq!(state.best_placement(&[999_999_999_999, 0, 0, 0]), Some((0, 0)));
}

#[test]
fn the_agent_plays_by_its_weights() {
    let mut state = state_with(pieces()[0]);
    let mut agent = GeneticAgent { weights: [1000, 0, 0, 0] };
    assert_eq!(agent.get_action(&state), Some(KeyCode::Left));
    state.pos = [0, 2];
    assert_eq!(agent.get_action(&state), None);
    let mut climber = GeneticAgent { weights: [0, -1000, 0, 0] };
    assert_eq!(climber.get_action(&state), Some(KeyCode::Up));
    assert_eq!(climber.weights, [0, -1000, 0, 0]);
}
