use genetic_tetris::tetris::N_PIECES;
use genetic_tetris::{pieces, Piece, PieceColor, TetrisState};

#[test]
fn there_are_seven_canonical_pieces() {
    let all = pieces();
    assert_eq!(N_PIECES, 7);
    assert_eq!(all.len(), 7);
    assert_eq!(all[0].color, PieceColor::Teal);
    assert_eq!(all[0].shape, [(0, 0), (1, 0), (2, 0), (3, 0)]);
    assert_eq!(all[0].center, (4, 2));
    assert_eq!(all[1].color, PieceColor::Blue);
    assert_eq!(all[1].shape, [(0, 0), (0, 1), (1, 1), (2, 1)]);
    assert_eq!(all[1].center, (2, 2));
    assert_eq!(all[2].color, PieceColor::Orange);
    assert_eq!(all[2].shape, [(2, 0), (0, 1), (1, 1), (2, 1)]);
    assert_eq!(all[2].center, (4, 2));
    assert_eq!(all[3].color, PieceColor::Yellow);
    assert_eq!(all[3].shape, [(0, 0), (1, 0), (0, 1), (1, 1)]);
    assert_eq!(all[3].center, (2, 2));
    assert_eq!(all[4].color, PieceColor::Green);
    assert_eq!(all[4].shape, [(1, 0), (2, 0), (0, 1), (1, 1)]);
    assert_eq!(all[4].center, (2, 2));
    assert_eq!(all[5].color, PieceColor::Purple);
    assert_eq!(all[5].shape, [(1, 0), (0, 1), (1, 1), (2, 1)]);
    assert_eq!(all[5].center, (2, 2));
    assert_eq!(all[6].color, PieceColor::Red);
    assert_eq!(all[6].shape, [(0, 0), (1, 0), (1, 1), (2, 1)]);
    assert_eq!(all[6].center, (2, 2));
}

#[test]
fn a_quarter_turn_of_the_long_piece() {
    let mut piece = pieces()[0];
    piece.rotate();
    assert_eq!(piece.shape, [(3, -1), (3, 0), (3, 1), (3, 2)]);
    assert_eq!(piece.center, (4, 2));
    assert_eq!(piece.color, PieceColor::Teal);
    piece.rotate();
    assert_eq!(piece.shape, [(4, 2), (3, 2), (2, 2), (1, 2)]);
}

#[test]
fn a_quarter_turn_of_the_t_piece() {
    let mut piece = pieces()[5];
    piece.rotate();
    assert_eq!(piece.shape, [(2, 1), (1, 0), (1, 1), (1, 2)]);
}

#[test]
fn four_turns_bring_each_canonical_piece_back() {
    for start in pieces().iter() {
        let mut piece = *start;
        for _ in 0..4 {
            piece.rotate();
        }
        assert_eq!(piece, *start);
    }
}

#[test]
fn a_centre_between_cells_turns_exactly_when_its_sum_is_whole() {
    let start =
        Piece { color: PieceColor::Teal, shape: [(0, 0), (1, 0), (2, 0), (3, 0)], center: (3, 1) };
    let mut piece = start;
    piece.rotate();
    assert_eq!(piece.shape, [(2, -1), (2, 0), (2, 1), (2, 2)]);
    piece.rotate();
    piece.rotate();
    piece.rotate();
    assert_eq!(piece, start);
}

#[test]
fn an_odd_centre_rounds_toward_zero() {
    let start =
        Piece { color: PieceColor::Teal, shape: [(0, 0), (1, 0), (2, 0), (3, 0)], center: (3, 2) };
    let mut piece = start;
    piece.rotate();
    assert_eq!(piece.shape[0], (2, 0));
    piece.rotate();
    assert_eq!(piece.shape[0], (2, 1));
    piece.rotate();
    assert_eq!(piece.shape[0], (1, 1));
    piece.rotate();
    assert_eq!(piece.shape[0], (1, 0));
    for i in 0..4 {
        let dx = (piece.shape[i].0 - start.shape[i].0).abs();
        let dy = (piece.shape[i].1 - start.shape[i].1).abs();
        assert!(dx <= 2 && dy <= 2);
    }
    assert_ne!(piece, start);
}

#[test]
fn a_turn_clamps_what_leaves_the_range() {
    let mut piece = Piece {
        color: PieceColor::Red,
        shape: [(0, -128), (0, 0), (127, 0), (-128, 127)],
        center: (127, 127),
    };
    piece.rotate();
    assert_eq!(piece.shape, [(127, 0), (127, 0), (127, 127), (0, -128)]);
}

#[test]
fn x_bounds_are_the_least_and_greatest_column() {
    assert_eq!(pieces()[0].x_bounds(), (0, 3));
    assert_eq!(pieces()[3].x_bounds(), (0, 1));
    let mut turned = pieces()[0];
    turned.rotate();
    assert_eq!(turned.x_bounds(), (3, 3));
    let odd =
        Piece { color: PieceColor::Red, shape: [(5, 0), (-7, 1), (2, 2), (9, 3)], center: (0, 0) };
    assert_eq!(odd.x_bounds(), (-7, 9));
    let last =
        Piece { color: PieceColor::Red, shape: [(5, 0), (4, 1), (6, 2), (-9, 3)], center: (0, 0) };
    assert_eq!(last.x_bounds(), (-9, 6));
}

#[test]
fn each_colour_has_its_paint() {
    assert_eq!(PieceColor::Teal.to_color(), 0x008080);
    assert_eq!(PieceColor::Blue.to_color(), 0x0341AE);
    assert_eq!(PieceColor::Orange.to_color(), 0xFF971C);
    assert_eq!(PieceColor::Yellow.to_color(), 0xFFD500);
    assert_eq!(PieceColor::Green.to_color(), 0x72CB3B);
    assert_eq!(PieceColor::Purple.to_color(), 0x800080);
    assert_eq!(PieceColor::Red.to_color(), 0xFF3213);
}

#[test]
fn a_random_piece_is_a_canonical_one() {
    let mut state = TetrisState::new();
    let all = pieces();
    let mut seen = [false; 7];
    for _ in 0..500 {
        let piece = Piece::random(&mut state.rng);
        let place = all.iter().position(|p| *p == piece);
        assert!(place.is_some());
        seen[place.unwrap()] = true;
    }
    assert!(seen.iter().filter(|s| **s).count() >= 2);
}
