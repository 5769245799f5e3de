//! The state of one game and the primitives that change it.

use crate::misc::sampling::entropy_rng;
use crate::tetris::board::{
    clear_lines, cleared, drop_row, empty_board, empty_grid, fits, free, full_rows, grid, in_map,
    inside, locked, occupied, only_full_row, row_taken_out, with_locked, Grid, TetrisBoard,
    BOARD_HEIGHT, BOARD_WIDTH,
};
use crate::tetris::keys::KeySet;
use crate::tetris::piece::{canonical_pieces, Piece, PieceColor};
use rand::rngs::SmallRng;
use vstd::prelude::*;

verus! {

/// The row at which a new piece enters the board.
pub const PIECE_SPAWN_OFFSET: i32 = 2;

/// The column at which a new piece enters the board.
pub const PIECE_SPAWN_COLUMN: i32 = 3;

/// Ticks between two steps of gravity.
pub const TICKS_PER_DROP: u64 = 144;

/// Ticks after which a held direction key is answered again.
pub const TICKS_PER_REPEAT: u64 = 24;

/// Points for each cleared row.
pub const LINE_BONUS: u32 = 100;

/// One game: the piece in play and the one after it, where the piece stands
/// and where it would land, the board, the tick counters, the keys already
/// answered, the score and whether the game has ended.
#[derive(Clone)]
pub struct TetrisState {
    pub current_piece: Piece,
    pub ghost_pos: [i32; 2],
    pub next_piece: Piece,
    pub pos: [i32; 2],
    pub board: TetrisBoard,
    pub drop_count: u64,
    pub sub_count: u64,
    pub pressed_map: KeySet,
    pub rng: SmallRng,
    pub score: u32,
    pub is_over: bool,
}

/// The mathematical model of a game: every field of the state but the random
/// generator, with positions and counters as unbounded integers.
pub struct Game {
    pub current_piece: Piece,
    pub ghost_pos: (int, int),
    pub next_piece: Piece,
    pub pos: (int, int),
    pub board: Grid,
    pub drop_count: int,
    pub sub_count: int,
    pub pressed_map: KeySet,
    pub score: int,
    pub is_over: bool,
}

impl View for TetrisState {
    type V = Game;

    open spec fn view(&self) -> Game {
        Game {
            current_piece: self.current_piece,
            ghost_pos: (self.ghost_pos[0] as int, self.ghost_pos[1] as int),
            next_piece: self.next_piece,
            pos: (self.pos[0] as int, self.pos[1] as int),
            board: grid(self.board),
            drop_count: self.drop_count as int,
            sub_count: self.sub_count as int,
            pressed_map: self.pressed_map,
            score: self.score as int,
            is_over: self.is_over,
        }
    }
}

impl Game {
    /// The game as it starts: the two given pieces, the first at the spawn
    /// position, on an empty board, with every counter at zero.
    pub open spec fn fresh(current: Piece, next: Piece) -> Game {
        Game {
            current_piece: current,
            ghost_pos: (0, 0),
            next_piece: next,
            pos: (PIECE_SPAWN_COLUMN as int, PIECE_SPAWN_OFFSET as int),
            board: empty_grid(),
            drop_count: 0,
            sub_count: 0,
            pressed_map: KeySet::nothing(),
            score: 0,
            is_over: false,
        }
    }

    /// Whether `piece` fits on the board when anchored at column `x`, row `y`.
    pub open spec fn valid(self, x: int, y: int, piece: Piece) -> bool {
        fits(self.board, piece.shape, x, y)
    }

    /// The game after the piece in play is asked to move by `(dx, dy)`: it
    /// moves if it fits there and stays if it does not.
    pub open spec fn moved(self, dx: int, dy: int) -> Game {
        if self.valid(self.pos.0 + dx, self.pos.1 + dy, self.current_piece) {
            Game { pos: (self.pos.0 + dx, self.pos.1 + dy), ..self }
        } else {
            self
        }
    }

    /// The game after the piece in play is asked to turn: it turns if the
    /// turned piece fits where it stands and stays as it is if not.
    pub open spec fn turned(self) -> Game {
        if self.valid(self.pos.0, self.pos.1, self.current_piece.rotated()) {
            Game { current_piece: self.current_piece.rotated(), ..self }
        } else {
            self
        }
    }

    /// The row at which the piece in play would come to rest.
    pub open spec fn landing_row(self) -> int {
        drop_row(self.board, self.current_piece.shape, self.pos.0, self.pos.1)
    }

    /// The game with its drop preview brought up to date.
    pub open spec fn with_ghost(self) -> Game {
        Game { ghost_pos: (self.pos.0, self.landing_row()), ..self }
    }

    /// The game after the piece in play is written onto the board.
    pub open spec fn piece_locked(self) -> Game {
        Game {
            board: locked(
                self.board,
                self.current_piece.shape,
                self.pos.0,
                self.pos.1,
                self.current_piece.color,
            ),
            ..self
        }
    }

    /// The game after its full rows are cleared and paid for.
    pub open spec fn lines_cleared(self) -> Game {
        Game {
            board: cleared(self.board),
            score: self.score + LINE_BONUS * full_rows(self.board),
            ..self
        }
    }
}

impl TetrisState {
    /// A new game with a generator seeded by the operating system and two
    /// pieces drawn from it.
    pub fn new() -> (state: TetrisState)
        ensures
            state@ == Game::fresh(state@.current_piece, state@.next_piece),
            canonical_pieces().contains(state@.current_piece),
            canonical_pieces().contains(state@.next_piece),
    {
        let mut rng = entropy_rng();
        let current_piece = Piece::random(&mut rng);
        let next_piece = Piece::random(&mut rng);
        TetrisState {
            current_piece,
            next_piece,
            pos: [PIECE_SPAWN_COLUMN, PIECE_SPAWN_OFFSET],
            ghost_pos: [0, 0],
            board: empty_board(),
            drop_count: 0,
            sub_count: 0,
            pressed_map: KeySet::none(),
            rng,
            score: 0,
            is_over: false,
        }
    }

    /// Starts the game over: a newly seeded generator, two newly drawn
    /// pieces, and every other field as in a new game.
    pub fn reset(&mut self)
        ensures
            final(self)@ == Game::fresh(final(self)@.current_piece, final(self)@.next_piece),
            canonical_pieces().contains(final(self)@.current_piece),
            canonical_pieces().contains(final(self)@.next_piece),
    {
        self.rng = entropy_rng();
        self.current_piece = Piece::random(&mut self.rng);
        self.next_piece = Piece::random(&mut self.rng);
        self.pos = [PIECE_SPAWN_COLUMN, PIECE_SPAWN_OFFSET];
        self.ghost_pos = [0, 0];
        self.board = empty_board();
        self.drop_count = 0;
        self.sub_count = 0;
        self.pressed_map.clear();
        self.score = 0;
        self.is_over = false;
    }

    /// Whether the cell at column `x`, row `y` holds a colour.
    pub fn collides(&self, x: usize, y: usize) -> (hit: bool)
        requires
            in_map(x as int, y as int),
        ensures
            hit == occupied(self@.board, x as int, y as int),
    {
        self.board[y][x] != PieceColor::Empty
    }

    /// Whether column `x`, row `y` names a cell of the board.
    pub fn is_in_map(&self, x: usize, y: usize) -> (inside: bool)
        ensures
            inside == in_map(x as int, y as int),
    {
        x < BOARD_WIDTH && y < BOARD_HEIGHT
    }

    /// Whether `piece`, anchored at `pos`, fits: each of its four cells is on
    /// the board and empty.
    pub fn is_valid_move(&self, pos: [i32; 2], piece: &Piece) -> (valid: bool)
        ensures
            valid == self@.valid(pos[0] as int, pos[1] as int, *piece),
    {
        let mut i: usize = 0;
        while i < 4
            invariant
                0 <= i <= 4,
                forall|k: int|
                    0 <= k < i ==> free(
                        self@.board,
                        pos[0] + piece.shape[k].0,
                        pos[1] + piece.shape[k].1,
                    ),
            decreases 4 - i,
        {
            let x: i64 = pos[0] as i64 + piece.shape[i].0 as i64;
            let y: i64 = pos[1] as i64 + piece.shape[i].1 as i64;
            if x < 0 || y < 0 {
                return false;
            }
            if !self.is_in_map(x as usize, y as usize) || self.collides(x as usize, y as usize) {
                return false;
            }
            i += 1;
        }
        true
    }

    /// Moves the piece in play by `(dx, dy)` if it fits there.
    pub fn move_current_piece(&mut self, dx: i32, dy: i32)
        ensures
            final(self)@ == old(self)@.moved(dx as int, dy as int),
    {
        let x: i64 = self.pos[0] as i64 + dx as i64;
        let y: i64 = self.pos[1] as i64 + dy as i64;
        // Nothing fits further than a piece's reach from the board.
        if -1000 <= x && x <= 1000 && -1000 <= y && y <= 1000 {
            let pos: [i32; 2] = [x as i32, y as i32];
            if self.is_valid_move(pos, &self.current_piece) {
                self.pos = pos;
            }
        }
    }

    /// Turns the piece in play a quarter turn if the turned piece fits.
    pub fn rotate_current_piece(&mut self)
        ensures
            final(self)@ == old(self)@.turned(),
    {
        let mut new_piece = self.current_piece;
        new_piece.rotate();
        if self.is_valid_move(self.pos, &new_piece) {
            self.current_piece = new_piece;
        }
    }

    /// Where `piece` comes to rest when it is let fall from `pos`: it goes
    /// down row by row for as long as the next row fits.
    pub fn calc_drop_pos(&self, pos: [i32; 2], piece: &Piece) -> (rest: [i32; 2])
        ensures
            rest[0] == pos[0],
            rest[1] >= pos[1],
            rest[1] == drop_row(self@.board, piece.shape, pos[0] as int, pos[1] as int),
            forall|row: int| pos[1] < row <= rest[1] ==> self@.valid(pos[0] as int, row, *piece),
            !self@.valid(rest[0] as int, rest[1] + 1, *piece),
            self@.valid(pos[0] as int, pos[1] as int, *piece) ==> self@.valid(
                rest[0] as int,
                rest[1] as int,
                *piece,
            ),
    {
        let mut rest: [i32; 2] = pos;
        loop
            invariant
                rest[0] == pos[0],
                rest[1] >= pos[1],
                drop_row(self@.board, piece.shape, pos[0] as int, rest[1] as int) == drop_row(
                    self@.board,
                    piece.shape,
                    pos[0] as int,
                    pos[1] as int,
                ),
                forall|row: int|
                    pos[1] < row <= rest[1] ==> self@.valid(pos[0] as int, row, *piece),
            ensures
                !self@.valid(rest[0] as int, rest[1] + 1, *piece),
            decreases BOARD_HEIGHT + 128 - rest[1],
        {
            // Nothing fits further than a piece's reach below the floor.
            if rest[1] >= 1000 {
                break;
            }
            let below: [i32; 2] = [rest[0], rest[1] + 1];
            if !self.is_valid_move(below, piece) {
                break;
            }
            rest = below;
        }
        rest
    }

    /// Brings the drop preview up to date.
    pub fn update_ghost_pos(&mut self)
        ensures
            final(self)@ == old(self)@.with_ghost(),
    {
        self.ghost_pos = self.calc_drop_pos(self.pos, &self.current_piece);
    }

    /// Writes the piece in play onto the board, in its colour. The piece
    /// must stand on the board with all four cells.
    pub fn lock_current_piece(&mut self)
        requires
            inside(old(self).current_piece.shape, old(self)@.pos.0, old(self)@.pos.1),
        ensures
            final(self)@ == old(self)@.piece_locked(),
    {
        self.board = with_locked(self.board, self.pos, &self.current_piece);
    }

    /// Clears the full rows of the board and adds `LINE_BONUS` to the score
    /// for each of them. With a single full row, that row is taken out, the
    /// rows above it move down by one under an empty top row, and the score
    /// goes up by `LINE_BONUS`.
    pub fn propagate_lines(&mut self)
        requires
            old(self)@.score + LINE_BONUS * full_rows(old(self)@.board) <= u32::MAX,
        ensures
            final(self)@ == old(self)@.lines_cleared(),
            forall|r: int| #[trigger]
                only_full_row(old(self)@.board, r) ==> final(self)@.score == old(self)@.score
                    + LINE_BONUS && row_taken_out(old(self)@.board, final(self)@.board, r),
    {
        let count: u32 = clear_lines(&mut self.board);
        self.score += LINE_BONUS * count;
    }
}

} // verus!
