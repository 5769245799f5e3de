use genetic_tetris::tetris::{LINE_BONUS, TICKS_PER_DROP, TICKS_PER_REPEAT};
use genetic_tetris::{empty_board, pieces, KeyCode, KeySet, Piece, PieceColor, TetrisState};

fn state_with(piece: Piece) -> TetrisState {
    let mut state = TetrisState::new();
    state.current_piece = piece;
    state
}

fn i_piece() -> Piece {
    pieces()[0]
}

#[test]
fn the_cadence_is_fixed() {
    assert_eq!(TICKS_PER_DROP, 144);
    assert_eq!(TICKS_PER_REPEAT, 24);
    assert_eq!(LINE_BONUS, 100);
}

#[test]
fn key_sets_hold_one_flag_for_each_key() {
    let none = KeySet::none();
    for key in [KeyCode::Left, KeyCode::Right, KeyCode::Up, KeyCode::Down, KeyCode::Space] {
        assert!(!none.contains(key));
        let only = KeySet::only(key);
        for other in [KeyCode::Left, KeyCode::Right, KeyCode::Up, KeyCode::Down, KeyCode::Space] {
            assert_eq!(only.contains(other), other == key);
        }
    }
    let mut keys = KeySet::none();
    keys.set(KeyCode::Down, true);
    keys.set(KeyCode::Up, true);
    assert!(keys.down && keys.up && !keys.left && !keys.right && !keys.space);
    keys.set(KeyCode::Down, false);
    assert_eq!(keys, KeySet::only(KeyCode::Up));
    keys.clear();
    assert_eq!(keys, KeySet::none());
}

#[test]
fn gravity_acts_every_144_ticks() {
    let mut state = state_with(i_piece());
    for _ in 0..143 {
        state.update(&KeySet::none());
    }
    assert_eq!(state.pos, [3, 2]);
    assert_eq!(state.drop_count, 143);
    state.update(&KeySet::none());
    assert_eq!(state.pos, [3, 3]);
    assert_eq!(state.drop_count, 144);
    assert_eq!(state.sub_count, 144);
    assert_eq!(state.score, 0);
    for _ in 0..144 {
        state.update(&KeySet::none());
    }
    assert_eq!(state.pos, [3, 4]);
}

#[test]
fn every_tick_brings_the_ghost_up_to_date() {
    let mut state = state_with(i_piece());
    state.update(&KeySet::none());
    assert_eq!(state.ghost_pos, [3, 19]);
    state.update(&KeySet::only(KeyCode::Left));
    assert_eq!(state.ghost_pos, [2, 19]);
}

#[test]
fn space_drops_the_piece_and_the_next_tick_locks_it() {
    let mut state = state_with(i_piece());
    let waiting = state.next_piece;
    state.update(&KeySet::only(KeyCode::Space));
    assert_eq!(state.pos, [3, 19]);
    assert_eq!(state.drop_count, 143);
    assert_eq!(state.sub_count, 0);
    assert_eq!(state.score, 0);
    state.update(&KeySet::none());
    assert_eq!(state.drop_count, 144);
    assert_eq!(state.pos, [3, 2]);
    assert_eq!(state.current_piece, waiting);
    assert!(pieces().contains(&state.next_piece));
    assert_eq!(state.score, 1);
    let mut expected = empty_board();
    for x in 3..7 {
        expected[19][x] = PieceColor::Teal;
    }
    assert_eq!(state.board, expected);
    assert!(!state.is_over);
}

#[test]
fn a_lock_that_fills_a_row_earns_the_bonus_and_the_point() {
    let mut state = state_with(i_piece());
    for x in 0..10 {
        if !(3..7).contains(&x) {
            state.board[19][x] = PieceColor::Red;
        }
    }
    state.board[18][0] = PieceColor::Blue;
    state.update(&KeySet::only(KeyCode::Space));
    state.update(&KeySet::none());
    assert_eq!(state.score, 101);
    let mut expected = empty_board();
    expected[19][0] = PieceColor::Blue;
    assert_eq!(state.board, expected);
}

#[test]
fn a_held_key_is_answered_once() {
    let mut state = state_with(i_piece());
    let left = KeySet::only(KeyCode::Left);
    state.update(&left);
    assert_eq!(state.pos, [2, 2]);
    assert!(state.pressed_map.left);
    state.update(&left);
    assert_eq!(state.pos, [2, 2]);
    state.update(&KeySet::none());
    assert!(!state.pressed_map.left);
    state.update(&left);
    assert_eq!(state.pos, [1, 2]);
}

#[test]
fn a_held_direction_repeats_after_24_ticks() {
    let mut state = state_with(i_piece());
    let left = KeySet::only(KeyCode::Left);
    for _ in 0..24 {
        state.update(&left);
    }
    assert_eq!(state.pos, [2, 2]);
    assert_eq!(state.sub_count, 23);
    state.update(&left);
    assert_eq!(state.pos, [1, 2]);
    assert_eq!(state.sub_count, 0);
}

#[test]
fn a_held_turn_does_not_repeat() {
    let mut state = state_with(i_piece());
    let up = KeySet::only(KeyCode::Up);
    state.update(&up);
    let once = state.current_piece;
    assert_eq!(once.shape, [(3, -1), (3, 0), (3, 1), (3, 2)]);
    for _ in 0..60 {
        state.update(&up);
    }
    assert_eq!(state.current_piece, once);
}

#[test]
fn keys_are_answered_in_the_order_turn_move_drop() {
    let mut state = state_with(i_piece());
    let all = KeySet { left: true, right: false, up: true, down: true, space: true };
    state.update(&all);
    assert_eq!(state.current_piece.shape, [(3, -1), (3, 0), (3, 1), (3, 2)]);
    assert_eq!(state.pos, [2, 17]);
    assert_eq!(state.drop_count, 143);
}

#[test]
fn left_and_right_together_cancel() {
    let mut state = state_with(i_piece());
    let both = KeySet { left: true, right: true, up: false, down: false, space: false };
    state.update(&both);
    assert_eq!(state.pos, [3, 2]);
}

#[test]
fn down_moves_one_row() {
    let mut state = state_with(i_piece());
    state.update(&KeySet::only(KeyCode::Down));
    assert_eq!(state.pos, [3, 3]);
    assert_eq!(state.drop_count, 1);
}

#[test]
fn a_piece_without_room_ends_the_game() {
    let mut state = state_with(i_piece());
    state.board[2][4] = PieceColor::Red;
    let before = state.clone();
    state.update(&KeySet::only(KeyCode::Left));
    assert!(state.is_over);
    assert_eq!(state.drop_count, 0);
    assert_eq!(state.sub_count, 0);
    assert_eq!(state.pos, before.pos);
    assert_eq!(state.board, before.board);
    assert_eq!(state.score, 0);
    assert_eq!(state.ghost_pos, before.ghost_pos);
    assert!(!state.pressed_map.left);
}

#[test]
fn a_game_that_is_over_stays_as_it_is() {
    let mut state = state_with(i_piece());
    state.is_over = true;
    state.update(&KeySet::only(KeyCode::Space));
    assert!(state.is_over);
    assert_eq!(state.pos, [3, 2]);
    assert_eq!(state.drop_count, 0);
    assert_eq!(state.board, empty_board());
}

#[test]
fn the_game_ends_when_the_stack_reaches_the_spawn() {
    let mut state = state_with(pieces()[3]);
    state.next_piece = pieces()[3];
    for y in 4..20 {
        state.board[y][3] = PieceColor::Red;
    }
    state.update(&KeySet::only(KeyCode::Space));
    assert_eq!(state.pos, [3, 2]);
    state.update(&KeySet::none());
    assert_eq!(state.score, 1);
    assert_eq!(state.pos, [3, 2]);
    assert!(!state.is_over);
    state.update(&KeySet::none());
    assert!(state.is_over);
    assert_eq!(state.score, 1);
}

#[test]
fn key_handler_fires_once_for_each_press() {
    let mut state = state_with(i_piece());
    state.sub_count = 9;
    assert!(state.key_handler(KeyCode::Right, true));
    assert_eq!(state.sub_count, 0);
    assert!(state.pressed_map.right);
    state.sub_count = 9;
    assert!(!state.key_handler(KeyCode::Right, true));
    assert_eq!(state.sub_count, 9);
    assert!(!state.key_handler(KeyCode::Right, false));
    assert!(!state.pressed_map.right);
    assert!(state.key_handler(KeyCode::Right, true));
    assert_eq!(state.pos, [3, 2]);
}

#[test]
fn handlers_act_on_their_own_keys() {
    let mut state = state_with(i_piece());
    let all = KeySet { left: true, right: true, up: true, down: true, space: true };
    state.movement_handler(&all);
    assert_eq!(state.pos, [3, 3]);
    assert_eq!(state.current_piece, i_piece());
    state.rotation_handler(&all);
    assert_eq!(state.current_piece.shape, [(3, -1), (3, 0), (3, 1), (3, 2)]);
    assert_eq!(state.pos, [3, 3]);
    state.drop_count = 150;
    state.drop_handler(&all);
    assert_eq!(state.pos, [3, 17]);
    assert_eq!(state.drop_count, 287);
    assert_eq!(
        state.pressed_map,
        KeySet { left: true, right: true, up: true, down: true, space: true }
    );
}

#[test]
fn can_tick_and_can_step_leave_room_at_the_end_of_the_counters() {
    let mut state = state_with(i_piece());
    assert!(state.can_tick());
    assert!(state.can_step());
    state.drop_count = u64::MAX - 144;
    assert!(state.can_tick());
    assert!(!state.can_step());
    state.drop_count = u64::MAX - 143;
    assert!(!state.can_tick());
    state.drop_count = 0;
    state.score = u32::MAX - 2001;
    assert!(state.can_tick());
    assert!(!state.can_step());
    state.score = u32::MAX - 2000;
    assert!(!state.can_tick());
    state.score = u32::MAX - 4002;
    assert!(state.can_step());
    state.sub_count = u64::MAX;
    assert!(!state.can_tick());
}

#[test]
fn the_queue_changes_only_when_a_piece_is_locked() {
    let mut state = state_with(i_piece());
    state.next_piece = Piece {
        color: PieceColor::Red,
        shape: [(0, 0), (1, 0), (2, 0), (2, 1)],
        center: (2, 2),
    };
    let odd = state.next_piece;
    for _ in 0..144 {
        state.update(&KeySet::only(KeyCode::Left));
        assert_eq!(state.next_piece, odd);
    }
    state.update(&KeySet::only(KeyCode::Space));
    assert_eq!(state.next_piece, odd);
    assert_eq!(state.drop_count, 287);
    state.update(&KeySet::none());
    assert_eq!(state.current_piece, odd);
    assert!(pieces().contains(&state.next_piece));
    assert_eq!(state.score, 1);
}
