//! A falling-block puzzle, a search that plays it from a vector of weights,
//! and a genetic optimizer that tunes those weights by self-play.
//!
//! The game itself lives in [`tetris`]: the board, the pieces, and the rules
//! of a tick. [`misc`] scores boards. [`agent`] holds the players and the
//! optimizer. Every rule is stated over a mathematical model of the board
//! and the game, and every function is proved to follow it.

pub mod agent;
pub mod misc;
pub mod tetris;

pub use agent::{
    Agent, DrawConfig, Generation, GeneticAgent, NormalSource, RandomAgent, Ratio, Replay,
    Training, TrainingError,
};
pub use misc::{
    ceil_gap_heuristic, height_heuristic, heuristics, line_completion_heuristic, loss,
    surface_roughness_heuristic, N_HEURISTICS,
};
pub use tetris::{
    empty_board, pieces, KeyCode, KeySet, Piece, PieceColor, TetrisBoard, TetrisState,
    BOARD_HEIGHT, BOARD_WIDTH,
};
