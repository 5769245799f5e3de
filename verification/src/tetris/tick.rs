//! One tick of the game: the clock, gravity, and the keys.

use crate::tetris::board::{lemma_kept_rows_len, BOARD_HEIGHT};
use crate::tetris::keys::{KeyCode, KeySet};
use crate::tetris::piece::{canonical_pieces, Piece};
use crate::tetris::state::{
    Game, TetrisState, LINE_BONUS, PIECE_SPAWN_COLUMN, PIECE_SPAWN_OFFSET, TICKS_PER_DROP,
    TICKS_PER_REPEAT,
};
use vstd::prelude::*;

verus! {

impl Game {
    /// Whether the counters leave room for one more tick: a tick adds at
    /// most `TICKS_PER_DROP` to the drop counter, one to the other counter,
    /// and one lock with every row cleared to the score.
    pub open spec fn can_tick(self) -> bool {
        &&& self.drop_count + TICKS_PER_DROP <= u64::MAX
        &&& self.sub_count + 1 <= u64::MAX
        &&& self.score + LINE_BONUS * BOARD_HEIGHT + 1 <= u32::MAX
    }

    /// Whether a tick ends the game rather than advancing it: the game is
    /// over already, or the piece in play does not fit where it stands.
    pub open spec fn halted(self) -> bool {
        self.is_over || !self.valid(self.pos.0, self.pos.1, self.current_piece)
    }

    /// The game after both counters have gone up by one. Every
    /// `TICKS_PER_REPEAT` ticks of the second counter the game forgets that
    /// it has answered `Left` and `Right`, and `Down` too unless gravity
    /// acts in this very tick.
    pub open spec fn clocked(self) -> Game {
        let drop_count = self.drop_count + 1;
        let sub_count = self.sub_count + 1;
        let gravity = drop_count % (TICKS_PER_DROP as int) == 0;
        let repeat = sub_count % (TICKS_PER_REPEAT as int) == 0;
        Game {
            drop_count,
            sub_count,
            pressed_map: if repeat {
                KeySet {
                    left: false,
                    right: false,
                    down: gravity && self.pressed_map.down,
                    ..self.pressed_map
                }
            } else {
                self.pressed_map
            },
            ..self
        }
    }

    /// The game after the piece that waited has entered the board and `next`
    /// has taken its place in the queue.
    pub open spec fn spawned(self, next: Piece) -> Game {
        Game {
            current_piece: self.next_piece,
            next_piece: next,
            pos: (PIECE_SPAWN_COLUMN as int, PIECE_SPAWN_OFFSET as int),
            ..self
        }
    }

    /// The game after gravity has acted: the piece goes down one row if it
    /// fits there; if not, it is locked, the piece that waited enters with
    /// `next` behind it, the full rows are cleared, and the placement earns
    /// one point on top of what the rows earn.
    pub open spec fn fallen(self, next: Piece) -> Game {
        if self.valid(self.pos.0, self.pos.1 + 1, self.current_piece) {
            Game { pos: (self.pos.0, self.pos.1 + 1), ..self }
        } else {
            let after = self.piece_locked().spawned(next).lines_cleared();
            Game { score: after.score + 1, ..after }
        }
    }

    /// Whether gravity, acting now, locks the piece in play: the piece does
    /// not fit one row further down.
    pub open spec fn lands(self) -> bool {
        !self.valid(self.pos.0, self.pos.1 + 1, self.current_piece)
    }

    /// Whether a tick locks the piece in play, so that a new piece joins the
    /// queue: the game is not halted, gravity acts in this tick, and the
    /// piece does not fit one row further down.
    pub open spec fn locks(self) -> bool {
        &&& !self.halted()
        &&& (self.drop_count + 1) % (TICKS_PER_DROP as int) == 0
        &&& self.lands()
    }

    /// Whether the game answers `key` in this tick: the key is down and the
    /// game has not answered it since it was last up.
    pub open spec fn answers(self, key: KeyCode, down: bool) -> bool {
        down && !self.pressed_map.has(key)
    }

    /// The game after it has taken note of whether `key` is down. Answering
    /// a key starts the count toward its repeat anew.
    pub open spec fn key_seen(self, key: KeyCode, down: bool) -> Game {
        Game {
            pressed_map: self.pressed_map.with(key, down),
            sub_count: if self.answers(key, down) {
                0
            } else {
                self.sub_count
            },
            ..self
        }
    }

    /// The game after the piece in play was let fall at once: it stands
    /// where it comes to rest, and the drop counter stands one tick before
    /// gravity acts next.
    pub open spec fn dropped_hard(self) -> Game {
        Game {
            pos: (self.pos.0, self.landing_row()),
            drop_count: self.drop_count + (TICKS_PER_DROP - 1 - self.drop_count % (
            TICKS_PER_DROP as int)),
            ..self
        }
    }

    /// What answering `key` does to the game.
    pub open spec fn acted(self, key: KeyCode) -> Game {
        match key {
            KeyCode::Up => self.turned(),
            KeyCode::Left => self.moved(-1, 0),
            KeyCode::Right => self.moved(1, 0),
            KeyCode::Down => self.moved(0, 1),
            KeyCode::Space => self.dropped_hard(),
        }
    }

    /// The game after it has dealt with `key`, given the keys that are held.
    pub open spec fn after_key(self, key: KeyCode, held: KeySet) -> Game {
        let seen = self.key_seen(key, held.has(key));
        if self.answers(key, held.has(key)) {
            seen.acted(key)
        } else {
            seen
        }
    }

    /// The game after it has dealt with the three keys that move the piece.
    pub open spec fn after_movement(self, held: KeySet) -> Game {
        self.after_key(KeyCode::Left, held).after_key(KeyCode::Right, held).after_key(
            KeyCode::Down,
            held,
        )
    }

    /// The game after the clock has gone on and gravity has acted if its
    /// tick has come, which is every `TICKS_PER_DROP` ticks.
    pub open spec fn settled(self, next: Piece) -> Game {
        let clocked = self.clocked();
        if clocked.drop_count % (TICKS_PER_DROP as int) == 0 {
            clocked.fallen(next)
        } else {
            clocked
        }
    }

    /// The game after it has dealt with every key, in the order turn, move,
    /// drop.
    pub open spec fn steered(self, held: KeySet) -> Game {
        self.after_key(KeyCode::Up, held).after_movement(held).after_key(KeyCode::Space, held)
    }

    /// The game after one tick, given the keys that are held and the piece
    /// that joins the queue if the piece in play is locked in this tick.
    ///
    /// A halted game is over and nothing else happens. Otherwise the clock
    /// goes on, gravity acts if its tick has come, the keys are dealt with
    /// and the drop preview is brought up to date.
    #[verifier::opaque]
    pub open spec fn tick(self, held: KeySet, next: Piece) -> Game {
        if self.halted() {
            Game { is_over: true, ..self }
        } else {
            self.settled(next).steered(held).with_ghost()
        }
    }

    /// A tick that does not lock the piece in play lets no piece join the
    /// queue, so it does not matter which piece stands by.
    pub proof fn lemma_tick_without_lock(self, held: KeySet, one: Piece, other: Piece)
        requires
            !self.locks(),
        ensures
            self.tick(held, one) == self.tick(held, other),
    {
        reveal(Game::tick);
    }

    /// What a tick does to the counters. A halted game is over and keeps
    /// its counters. Any other game is not over after the tick; its drop
    /// counter has gone up, by `TICKS_PER_DROP` at most; its second counter
    /// has gone up by one at most; and its score has not gone down, nor up
    /// by more than one lock with every row cleared.
    pub proof fn lemma_tick_counters(self, held: KeySet, next: Piece)
        requires
            self.board.len() == BOARD_HEIGHT,
            self.sub_count >= 0,
        ensures
            self.tick(held, next).board.len() == BOARD_HEIGHT,
            self.tick(held, next).sub_count >= 0,
            self.halted() ==> self.tick(held, next) == (Game { is_over: true, ..self }),
            !self.halted() ==> {
                let after = self.tick(held, next);
                &&& !after.is_over
                &&& self.drop_count < after.drop_count <= self.drop_count + TICKS_PER_DROP
                &&& after.sub_count <= self.sub_count + 1
                &&& self.score <= after.score <= self.score + LINE_BONUS * BOARD_HEIGHT + 1
            },
    {
        reveal(Game::tick);
        if !self.halted() {
            let clocked = self.clocked();
            let settled = self.settled(next);
            lemma_kept_rows_len(clocked.piece_locked().spawned(next).board, BOARD_HEIGHT as nat);
            assert(self.score <= settled.score <= self.score + LINE_BONUS * BOARD_HEIGHT + 1);
            let turned = settled.after_key(KeyCode::Up, held);
            let moved = turned.after_movement(held);
            let dropped = moved.after_key(KeyCode::Space, held);
            assert(moved.drop_count == settled.drop_count);
            assert(moved.score == settled.score && moved.board == settled.board);
            assert(moved.sub_count <= settled.sub_count);
            assert(moved.sub_count >= 0);
        }
    }
}

impl TetrisState {
    /// Whether the counters leave room for one more tick.
    pub fn can_tick(&self) -> (room: bool)
        ensures
            room == self@.can_tick(),
    {
        let gain: u32 = LINE_BONUS * (BOARD_HEIGHT as u32) + 1;
        self.drop_count <= u64::MAX - TICKS_PER_DROP && self.sub_count < u64::MAX && self.score
            <= u32::MAX - gain
    }

    /// Takes note of whether `key` is down and tells whether the game
    /// answers it now: it does once for each time the key goes down.
    pub fn key_handler(&mut self, key: KeyCode, down: bool) -> (fire: bool)
        ensures
            fire == old(self)@.answers(key, down),
            final(self)@ == old(self)@.key_seen(key, down),
    {
        let fire = down && !self.pressed_map.contains(key);
        self.pressed_map.set(key, down);
        if fire {
            self.sub_count = 0;
        }
        fire
    }

    /// Lets the piece in play fall at once and brings the drop counter to
    /// one tick before gravity acts.
    fn drop_current_piece(&mut self)
        requires
            old(self)@.drop_count + TICKS_PER_DROP - 1 <= u64::MAX,
        ensures
            final(self)@ == old(self)@.dropped_hard(),
    {
        self.pos = self.calc_drop_pos(self.pos, &self.current_piece);
        self.drop_count += TICKS_PER_DROP - self.drop_count % TICKS_PER_DROP - 1;
    }

    /// Deals with `Up`: a quarter turn when the key is answered.
    pub fn rotation_handler(&mut self, held: &KeySet)
        ensures
            final(self)@ == old(self)@.after_key(KeyCode::Up, *held),
    {
        if self.key_handler(KeyCode::Up, held.up) {
            self.rotate_current_piece();
        }
    }

    /// Deals with `Left`, `Right` and `Down`, in this order: one step for
    /// each key that is answered.
    pub fn movement_handler(&mut self, held: &KeySet)
        ensures
            final(self)@ == old(self)@.after_movement(*held),
    {
        if self.key_handler(KeyCode::Left, held.left) {
            self.move_current_piece(-1, 0);
        }
        if self.key_handler(KeyCode::Right, held.right) {
            self.move_current_piece(1, 0);
        }
        if self.key_handler(KeyCode::Down, held.down) {
            self.move_current_piece(0, 1);
        }
    }

    /// Deals with `Space`: the piece falls at once when the key is answered.
    pub fn drop_handler(&mut self, held: &KeySet)
        requires
            old(self)@.drop_count + TICKS_PER_DROP - 1 <= u64::MAX,
        ensures
            final(self)@ == old(self)@.after_key(KeyCode::Space, *held),
    {
        if self.key_handler(KeyCode::Space, held.space) {
            self.drop_current_piece();
        }
    }

    /// Lets both counters go up by one and releases the keys whose repeat is
    /// due.
    fn advance_clock(&mut self)
        requires
            old(self)@.drop_count < u64::MAX,
            old(self)@.sub_count < u64::MAX,
        ensures
            final(self)@ == old(self)@.clocked(),
    {
        self.drop_count += 1;
        self.sub_count += 1;
        let gravity = self.drop_count % TICKS_PER_DROP == 0;
        let repeat = self.sub_count % TICKS_PER_REPEAT == 0;
        if repeat {
            self.pressed_map.set(KeyCode::Left, false);
            self.pressed_map.set(KeyCode::Right, false);
            if !gravity {
                self.pressed_map.set(KeyCode::Down, false);
            }
        }
    }

    /// Lets gravity act on the piece in play.
    fn fall(&mut self)
        requires
            old(self)@.valid(old(self)@.pos.0, old(self)@.pos.1, old(self)@.current_piece),
            old(self)@.score + LINE_BONUS * BOARD_HEIGHT + 1 <= u32::MAX,
        ensures
            final(self)@ == old(self)@.fallen(final(self)@.next_piece),
            old(self)@.lands() ==> canonical_pieces().contains(final(self)@.next_piece),
            !old(self)@.lands() ==> final(self)@.next_piece == old(self)@.next_piece,
    {
        let row: i32 = self.pos[1];
        self.move_current_piece(0, 1);
        if self.pos[1] == row {
            self.lock_current_piece();
            self.current_piece = self.next_piece;
            self.next_piece = Piece::random(&mut self.rng);
            self.pos = [PIECE_SPAWN_COLUMN, PIECE_SPAWN_OFFSET];
            proof {
                lemma_kept_rows_len(self@.board, BOARD_HEIGHT as nat);
            }
            self.propagate_lines();
            self.score += 1;
        }
    }

    /// Lets the clock go on and gravity act if its tick has come.
    fn settle(&mut self)
        requires
            !old(self)@.halted(),
            old(self)@.can_tick(),
        ensures
            final(self)@ == old(self)@.settled(final(self)@.next_piece),
            old(self)@.locks() ==> canonical_pieces().contains(final(self)@.next_piece),
            !old(self)@.locks() ==> final(self)@.next_piece == old(self)@.next_piece,
            final(self)@.drop_count == old(self)@.drop_count + 1,
    {
        self.advance_clock();
        if self.drop_count % TICKS_PER_DROP == 0 {
            self.fall();
        }
    }

    /// Deals with every key, in the order turn, move, drop.
    fn steer(&mut self, held: &KeySet)
        requires
            old(self)@.drop_count + TICKS_PER_DROP - 1 <= u64::MAX,
        ensures
            final(self)@ == old(self)@.steered(*held),
            final(self)@.next_piece == old(self)@.next_piece,
    {
        self.rotation_handler(held);
        self.movement_handler(held);
        self.drop_handler(held);
    }

    /// Advances the game by one tick, given the keys that are held down.
    ///
    /// If the game is over, or the piece in play does not fit where it
    /// stands, the game is over and nothing else happens. Otherwise the
    /// clock goes on; every `TICKS_PER_DROP` ticks the piece goes down one
    /// row or, if it cannot, is locked, with the next piece entering, the
    /// full rows cleared and one point earned; then the keys are dealt with
    /// and the drop preview is brought up to date. A piece joins the queue
    /// exactly when the piece in play is locked, and it is one of the seven.
    pub fn update(&mut self, held: &KeySet)
        requires
            old(self)@.halted() || old(self)@.can_tick(),
        ensures
            final(self)@ == old(self)@.tick(*held, final(self)@.next_piece),
            old(self)@.locks() ==> canonical_pieces().contains(final(self)@.next_piece),
            !old(self)@.locks() ==> final(self)@.next_piece == old(self)@.next_piece,
    {
        reveal(Game::tick);
        if self.is_over || !self.is_valid_move(self.pos, &self.current_piece) {
            self.is_over = true;
            return ;
        }
        self.settle();
        self.steer(held);
        self.update_ghost_pos();
    }
}

} // verus!
