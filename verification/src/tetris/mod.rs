//! The board, the falling piece and the rules that move them.

pub mod board;
pub mod keys;
pub mod piece;
pub mod play;
pub mod search;
pub mod state;
pub mod tick;

pub use board::{
    clear_lines, empty_board, row_is_full, with_locked, TetrisBoard, BOARD_HEIGHT, BOARD_WIDTH,
};
pub use keys::{KeyCode, KeySet};
pub use piece::{pieces, Piece, PieceColor, N_PIECES};
pub use search::LOSS_CEILING;
pub use state::{
    TetrisState, LINE_BONUS, PIECE_SPAWN_COLUMN, PIECE_SPAWN_OFFSET, TICKS_PER_DROP,
    TICKS_PER_REPEAT,
};
