//! What holds of every game that is played from a fresh start: no game ends
//! before its first piece is locked, so every game that has ended has
//! scored.

use crate::tetris::board::{
    empty_grid, fits, lemma_drop_row, lemma_kept_rows_len, BOARD_HEIGHT,
};
use crate::tetris::keys::{KeyCode, KeySet};
use crate::tetris::piece::{canonical_pieces, Piece};
use crate::tetris::state::{Game, PIECE_SPAWN_OFFSET, TICKS_PER_DROP};
use vstd::prelude::*;

verus! {

impl Game {
    /// Whether the game stands before its first lock as play from a fresh
    /// start leaves it: nothing is scored, the piece in play fits where it
    /// stands, the second counter has not passed the drop counter, and the
    /// piece has come down at least one row for each time that gravity has
    /// acted.
    pub open spec fn unscored(self) -> bool {
        &&& self.score == 0
        &&& self.valid(self.pos.0, self.pos.1, self.current_piece)
        &&& self.sub_count <= self.drop_count
        &&& self.drop_count / (TICKS_PER_DROP as int) + PIECE_SPAWN_OFFSET <= self.pos.1
    }

    /// Whether the game is as the rules leave a game between two stages of
    /// a tick: it has scored, or it stands before its first lock.
    pub open spec fn steady(self) -> bool {
        &&& self.board.len() == BOARD_HEIGHT
        &&& 0 <= self.sub_count
        &&& (self.score >= 1 || self.unscored())
    }

    /// Whether the game is as play from a fresh start leaves it: it has
    /// scored, or it stands before its first lock and is not over.
    pub open spec fn in_play(self) -> bool {
        &&& self.steady()
        &&& self.score == 0 ==> !self.is_over
    }

    /// A fresh game with a canonical piece in play is in play.
    pub proof fn lemma_fresh_in_play(current: Piece, next: Piece)
        requires
            canonical_pieces().contains(current),
        ensures
            Game::fresh(current, next).in_play(),
    {
        let all = canonical_pieces();
        let i = choose|i: int| 0 <= i < all.len() && all[i] == current;
        assert(0 <= i < 7);
        assert(all[0].shape[0] == (0i8, 0i8));
        assert(fits(empty_grid(), all[0].shape, 3, 2));
        assert(fits(empty_grid(), all[1].shape, 3, 2));
        assert(fits(empty_grid(), all[2].shape, 3, 2));
        assert(fits(empty_grid(), all[3].shape, 3, 2));
        assert(fits(empty_grid(), all[4].shape, 3, 2));
        assert(fits(empty_grid(), all[5].shape, 3, 2));
        assert(fits(empty_grid(), all[6].shape, 3, 2));
    }

    /// The clock and gravity keep a game steady.
    pub proof fn lemma_settled_steady(self, next: Piece)
        requires
            self.steady(),
        ensures
            self.settled(next).steady(),
            self.settled(next).is_over == self.is_over,
    {
        let clocked = self.clocked();
        lemma_kept_rows_len(clocked.piece_locked().spawned(next).board, BOARD_HEIGHT as nat);
    }

    /// Dealing with a key keeps a game steady.
    pub proof fn lemma_key_steady(self, key: KeyCode, held: KeySet)
        requires
            self.steady(),
        ensures
            self.after_key(key, held).steady(),
            self.after_key(key, held).is_over == self.is_over,
    {
        lemma_drop_row(self.board, self.current_piece.shape, self.pos.0, self.pos.1);
    }

    /// A tick keeps a game in play.
    pub proof fn lemma_tick_in_play(self, held: KeySet, next: Piece)
        requires
            self.in_play(),
        ensures
            self.tick(held, next).in_play(),
    {
        reveal(Game::tick);
        if !self.halted() {
            let settled = self.settled(next);
            self.lemma_settled_steady(next);
            let turned = settled.after_key(KeyCode::Up, held);
            settled.lemma_key_steady(KeyCode::Up, held);
            let left = turned.after_key(KeyCode::Left, held);
            turned.lemma_key_steady(KeyCode::Left, held);
            let right = left.after_key(KeyCode::Right, held);
            left.lemma_key_steady(KeyCode::Right, held);
            let down = right.after_key(KeyCode::Down, held);
            right.lemma_key_steady(KeyCode::Down, held);
            down.lemma_key_steady(KeyCode::Space, held);
        }
    }
}

} // verus!
