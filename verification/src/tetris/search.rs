//! The move search: every way to turn the piece in play and to pick a column
//! for it is let fall onto a copy of the board, the board that results is
//! given a loss, and the first placement with the lowest loss wins.

use crate::misc::heuristics::{loss, weighted_loss, N_HEURISTICS};
use crate::tetris::board::{drop_row, fits, lemma_drop_row, locked, with_locked, BOARD_WIDTH};
use crate::tetris::keys::KeyCode;
use crate::tetris::piece::Piece;
use crate::tetris::state::{Game, TetrisState};
use vstd::prelude::*;

verus! {

/// The loss that a placement must stay below to be taken at all: a thousand
/// million, in the thousandths that weights are counted in.
pub const LOSS_CEILING: i128 = 1_000_000_000_000;

/// Whether the placement `(t1, x1)` is tried before `(t2, x2)`: the search
/// goes through the turns in order and, within a turn, through the columns
/// from the left.
pub open spec fn tried_before(t1: int, x1: int, t2: int, x2: int) -> bool {
    t1 < t2 || (t1 == t2 && x1 < x2)
}

/// The key that brings the piece one step nearer to the placement `best`,
/// from column `column`: a turn while turns are still owed, then a step
/// toward the column, then nothing.
pub open spec fn key_toward(best: Option<(int, int)>, column: int) -> Option<KeyCode> {
    match best {
        None => None,
        Some((turns, x)) => if turns > 0 {
            Some(KeyCode::Up)
        } else if x < column {
            Some(KeyCode::Left)
        } else if x > column {
            Some(KeyCode::Right)
        } else {
            None
        },
    }
}

impl Game {
    /// Whether the piece in play, turned `turns` quarter turns, fits in
    /// column `x` at the row it stands in.
    #[verifier::opaque]
    pub open spec fn turned_fits(self, turns: nat, x: int) -> bool {
        fits(self.board, self.current_piece.rotated_by(turns).shape, x, self.pos.1)
    }

    /// Whether the search tries the placement: one of the four turns, and a
    /// column in which the turned piece fits at the row it stands in.
    pub open spec fn candidate(self, turns: int, x: int) -> bool {
        0 <= turns < 4 && self.turned_fits(turns as nat, x)
    }

    /// The row at which the placement comes to rest.
    pub open spec fn placement_row(self, turns: int, x: int) -> int {
        drop_row(self.board, self.current_piece.rotated_by(turns as nat).shape, x, self.pos.1)
    }

    /// The loss of the board that the placement leaves: the turned piece,
    /// let fall in column `x`, locked where it comes to rest.
    #[verifier::opaque]
    pub open spec fn placement_loss(self, weights: [i64; N_HEURISTICS], turns: int, x: int) -> int {
        let piece = self.current_piece.rotated_by(turns as nat);
        weighted_loss(
            weights,
            locked(self.board, piece.shape, x, self.placement_row(turns, x), piece.color),
        )
    }

    /// Whether the placement is the one that the search settles on: it is
    /// tried, its loss is below the ceiling, no placement tried before it has
    /// a loss as low, and none tried after it has a lower one.
    pub open spec fn is_best(self, weights: [i64; N_HEURISTICS], turns: int, x: int) -> bool {
        &&& self.candidate(turns, x)
        &&& self.placement_loss(weights, turns, x) < LOSS_CEILING
        &&& forall|t: int, c: int| #[trigger]
            self.candidate(t, c) ==> if tried_before(t, c, turns, x) {
                self.placement_loss(weights, t, c) > self.placement_loss(weights, turns, x)
            } else {
                self.placement_loss(weights, t, c) >= self.placement_loss(weights, turns, x)
            }
    }

    /// The placement that the search settles on, as turns and column, if
    /// there is one.
    pub open spec fn best(self, weights: [i64; N_HEURISTICS]) -> Option<(int, int)> {
        if exists|t: int, c: int| self.is_best(weights, t, c) {
            Some(choose|p: (int, int)| self.is_best(weights, p.0, p.1))
        } else {
            None
        }
    }

    /// The search settles on at most one placement.
    pub proof fn lemma_best_is_unique(
        self,
        weights: [i64; N_HEURISTICS],
        t1: int,
        x1: int,
        t2: int,
        x2: int,
    )
        requires
            self.is_best(weights, t1, x1),
            self.is_best(weights, t2, x2),
        ensures
            t1 == t2,
            x1 == x2,
    {
        assert(self.candidate(t1, x1));
        assert(self.candidate(t2, x2));
    }

    /// A placement that the search settles on is the one that `best` names.
    pub proof fn lemma_best_is(self, weights: [i64; N_HEURISTICS], turns: int, x: int)
        requires
            self.is_best(weights, turns, x),
        ensures
            self.best(weights) == Some((turns, x)),
    {
        let p = choose|p: (int, int)| self.is_best(weights, p.0, p.1);
        assert(self.is_best(weights, (turns, x).0, (turns, x).1));
        self.lemma_best_is_unique(weights, turns, x, p.0, p.1);
    }

    /// The search never settles on a placement that does not fit: the turned
    /// piece fits in the chosen column, both at the row it starts from and at
    /// the row it comes to rest on.
    pub proof fn lemma_best_fits(self, weights: [i64; N_HEURISTICS])
        ensures
            match self.best(weights) {
                Some((turns, x)) => {
                    let piece = self.current_piece.rotated_by(turns as nat);
                    &&& 0 <= turns < 4
                    &&& self.valid(x, self.pos.1, piece)
                    &&& self.valid(x, self.placement_row(turns, x), piece)
                },
                None => true,
            },
    {
        reveal(Game::turned_fits);
        if exists|t: int, c: int| self.is_best(weights, t, c) {
            let w = choose|t: int, c: int| self.is_best(weights, t, c);
            assert(self.is_best(weights, (w.0, w.1).0, (w.0, w.1).1));
            let p = choose|p: (int, int)| self.is_best(weights, p.0, p.1);
            lemma_drop_row(
                self.board,
                self.current_piece.rotated_by(p.0 as nat).shape,
                p.1,
                self.pos.1,
            );
        }
    }

    /// A placement that is tried keeps the turned piece between the walls.
    pub proof fn lemma_candidate_columns(self, turns: int, x: int)
        requires
            self.candidate(turns, x),
        ensures
            0 <= x + self.current_piece.rotated_by(turns as nat).min_x(),
            x + self.current_piece.rotated_by(turns as nat).max_x() < BOARD_WIDTH,
    {
        reveal(Game::turned_fits);
    }

    /// Whether `found` is what the search holds once it has tried every
    /// placement before `(turns, x)`: the first of the lowest losses among
    /// them, or nothing if none of them is below the ceiling.
    spec fn leads(
        self,
        weights: [i64; N_HEURISTICS],
        found: Option<(int, int)>,
        turns: int,
        x: int,
    ) -> bool {
        match found {
            None => forall|t: int, c: int| #[trigger]
                self.candidate(t, c) && tried_before(t, c, turns, x) ==> self.placement_loss(
                    weights,
                    t,
                    c,
                ) >= LOSS_CEILING,
            Some((bt, bx)) => {
                &&& self.candidate(bt, bx)
                &&& tried_before(bt, bx, turns, x)
                &&& self.placement_loss(weights, bt, bx) < LOSS_CEILING
                &&& forall|t: int, c: int| #[trigger]
                    self.candidate(t, c) && tried_before(t, c, turns, x) ==> if tried_before(
                        t,
                        c,
                        bt,
                        bx,
                    ) {
                        self.placement_loss(weights, t, c) > self.placement_loss(weights, bt, bx)
                    } else {
                        self.placement_loss(weights, t, c) >= self.placement_loss(weights, bt, bx)
                    }
            },
        }
    }

    /// The loss that a new placement has to beat.
    spec fn loss_to_beat(self, weights: [i64; N_HEURISTICS], found: Option<(int, int)>) -> int {
        match found {
            None => LOSS_CEILING as int,
            Some((bt, bx)) => self.placement_loss(weights, bt, bx),
        }
    }

    /// What the search holds after it has looked at the placement
    /// `(turns, x)`.
    spec fn after_trying(
        self,
        weights: [i64; N_HEURISTICS],
        found: Option<(int, int)>,
        turns: int,
        x: int,
    ) -> Option<(int, int)> {
        if self.candidate(turns, x) && self.placement_loss(weights, turns, x) < self.loss_to_beat(
            weights,
            found,
        ) {
            Some((turns, x))
        } else {
            found
        }
    }

    /// Before the first turn begins, the search holds nothing.
    proof fn lemma_leads_at_start(self, weights: [i64; N_HEURISTICS], x: int)
        requires
            x <= -self.current_piece.rotated_by(0).min_x(),
        ensures
            self.leads(weights, None, 0, x),
    {
        assert forall|t: int, c: int| #[trigger]
            self.candidate(t, c) && tried_before(t, c, 0, x) implies self.placement_loss(
            weights,
            t,
            c,
        ) >= LOSS_CEILING by {
            self.lemma_candidate_columns(t, c);
        }
    }

    /// Looking at one more placement keeps what the search holds in step.
    proof fn lemma_leads_step(
        self,
        weights: [i64; N_HEURISTICS],
        found: Option<(int, int)>,
        turns: int,
        x: int,
    )
        requires
            self.leads(weights, found, turns, x),
        ensures
            self.leads(weights, self.after_trying(weights, found, turns, x), turns, x + 1),
    {
        let next = self.after_trying(weights, found, turns, x);
        assert forall|t: int, c: int| #[trigger]
            self.candidate(t, c) && tried_before(t, c, turns, x + 1) implies (tried_before(
            t,
            c,
            turns,
            x,
        ) || (t == turns && c == x)) by {}
    }

    /// Once the columns of a turn are used up, the search stands at the
    /// start of the next turn.
    proof fn lemma_leads_next_turn(
        self,
        weights: [i64; N_HEURISTICS],
        found: Option<(int, int)>,
        turns: int,
        x: int,
        start: int,
    )
        requires
            self.leads(weights, found, turns, x),
            0 <= turns < 4,
            x >= BOARD_WIDTH - self.current_piece.rotated_by(turns as nat).max_x(),
            turns < 3 ==> start <= -self.current_piece.rotated_by((turns + 1) as nat).min_x(),
        ensures
            self.leads(weights, found, turns + 1, start),
    {
        assert forall|t: int, c: int| #[trigger]
            self.candidate(t, c) && tried_before(t, c, turns + 1, start) implies tried_before(
            t,
            c,
            turns,
            x,
        ) by {
            self.lemma_candidate_columns(t, c);
        }
    }

    /// Once every turn is done, what the search holds is the best placement.
    proof fn lemma_leads_at_end(
        self,
        weights: [i64; N_HEURISTICS],
        found: Option<(int, int)>,
        x: int,
    )
        requires
            self.leads(weights, found, 4, x),
        ensures
            self.best(weights) == found,
    {
        match found {
            Some((bt, bx)) => {
                assert(self.is_best(weights, bt, bx));
                self.lemma_best_is(weights, bt, bx);
            },
            None => {
                assert forall|t: int, c: int| !self.is_best(weights, t, c) by {
                    if self.candidate(t, c) {
                        assert(tried_before(t, c, 4, x));
                    }
                }
            },
        }
    }
}

/// A placement as the search holds it, with its numbers as integers.
spec fn as_ints(found: Option<(u8, i32)>) -> Option<(int, int)> {
    match found {
        None => None,
        Some((turns, x)) => Some((turns as int, x as int)),
    }
}

impl TetrisState {
    /// The loss of the placement of `piece`, which is the piece in play after
    /// `turns` quarter turns, in column `x`; `None` if the search does not
    /// try the placement.
    fn try_placement(
        &self,
        weights: &[i64; N_HEURISTICS],
        piece: &Piece,
        turns: u8,
        x: i32,
    ) -> (tried: Option<i128>)
        requires
            turns < 4,
            *piece == self@.current_piece.rotated_by(turns as nat),
        ensures
            tried is Some <==> self@.candidate(turns as int, x as int),
            tried matches Some(l) ==> l == self@.placement_loss(*weights, turns as int, x as int),
    {
        reveal(Game::turned_fits);
        reveal(Game::placement_loss);
        let pos: [i32; 2] = [x, self.pos[1]];
        if self.is_valid_move(pos, piece) {
            let rest = self.calc_drop_pos(pos, piece);
            let board = with_locked(self.board, rest, piece);
            Some(loss(weights, &board))
        } else {
            None
        }
    }

    /// Searches the placements of the piece in play and returns the one with
    /// the lowest loss under `weights`, as the number of quarter turns and
    /// the column; among equal losses the placement tried first wins. `None`
    /// if no placement fits or none has a loss below `LOSS_CEILING`.
    ///
    /// The board itself is never written: each placement is locked onto a
    /// copy.
    pub fn best_placement(&self, weights: &[i64; N_HEURISTICS]) -> (found: Option<(u8, i32)>)
        ensures
            match found {
                Some((turns, x)) => {
                    &&& self@.best(*weights) == Some((turns as int, x as int))
                    &&& turns < 4
                    &&& self@.valid(
                        x as int,
                        self@.pos.1,
                        self@.current_piece.rotated_by(turns as nat),
                    )
                    &&& self@.valid(
                        x as int,
                        self@.placement_row(turns as int, x as int),
                        self@.current_piece.rotated_by(turns as nat),
                    )
                },
                None => self@.best(*weights) is None,
            },
    {
        reveal_with_fuel(Piece::rotated_by, 2);
        let mut piece: Piece = self.current_piece;
        let mut best_loss: i128 = LOSS_CEILING;
        let mut found: Option<(u8, i32)> = None;
        let mut rotation: u8 = 0;
        let (mut xmin, mut xmax) = piece.x_bounds();
        proof {
            self@.lemma_leads_at_start(*weights, -xmin);
        }
        while rotation < 4
            invariant
                0 <= rotation <= 4,
                rotation < 4 ==> piece == self@.current_piece.rotated_by(rotation as nat),
                rotation < 4 ==> xmin == piece.min_x() && xmax == piece.max_x(),
                self@.leads(*weights, as_ints(found), rotation as int, -xmin),
                best_loss == self@.loss_to_beat(*weights, as_ints(found)),
            decreases 4 - rotation,
        {
            let mut x: i32 = 0 - xmin;
            let end: i32 = BOARD_WIDTH as i32 - xmax;
            while x < end
                invariant
                    0 <= rotation < 4,
                    piece == self@.current_piece.rotated_by(rotation as nat),
                    xmax == piece.max_x(),
                    end == BOARD_WIDTH - xmax,
                    -128 <= x <= 128 + BOARD_WIDTH,
                    self@.leads(*weights, as_ints(found), rotation as int, x as int),
                    best_loss == self@.loss_to_beat(*weights, as_ints(found)),
                decreases end - x,
            {
                proof {
                    self@.lemma_leads_step(*weights, as_ints(found), rotation as int, x as int);
                }
                if let Some(l) = self.try_placement(weights, &piece, rotation, x) {
                    if l < best_loss {
                        best_loss = l;
                        found = Some((rotation, x));
                    }
                }
                x += 1;
            }
            if rotation < 3 {
                piece.rotate();
                let bounds = piece.x_bounds();
                xmin = bounds.0;
                xmax = bounds.1;
            }
            proof {
                assert(self@.current_piece.rotated_by((rotation + 1) as nat)
                    == self@.current_piece.rotated_by(rotation as nat).rotated());
                self@.lemma_leads_next_turn(
                    *weights,
                    as_ints(found),
                    rotation as int,
                    x as int,
                    -xmin as int,
                );
            }
            rotation += 1;
        }
        proof {
            self@.lemma_leads_at_end(*weights, as_ints(found), -xmin as int);
            self@.lemma_best_fits(*weights);
        }
        found
    }

    /// The key to press next so that the piece in play comes one step nearer
    /// to the best placement under `weights`: `Up` while the placement still
    /// asks for a turn, else `Left` or `Right` toward its column, else
    /// nothing, which leaves the piece to fall where it stands.
    pub fn pick_move_by_key(&self, weights: &[i64; N_HEURISTICS]) -> (key: Option<KeyCode>)
        ensures
            key == key_toward(self@.best(*weights), self@.pos.0),
    {
        match self.best_placement(weights) {
            None => None,
            Some((turns, x)) => {
                if turns > 0 {
                    Some(KeyCode::Up)
                } else if x < self.pos[0] {
                    Some(KeyCode::Left)
                } else if x > self.pos[0] {
                    Some(KeyCode::Right)
                } else {
                    None
                }
            },
        }
    }
}

} // verus!
