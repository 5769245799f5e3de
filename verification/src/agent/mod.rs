//! Agents: anything that can name the next key for a game, and the loop
//! that lets one play.

pub mod genetic;
pub mod random;

pub use genetic::{
    evaluate_all, fittest, next_generation, offspring, roulette_wheel, select, sum_shares,
    Generation, GeneticAgent, NormalSource, Ratio, Replay, Training, TrainingError, STD_DEV,
    WEIGHT_SCALE,
};
pub use random::RandomAgent;

use crate::tetris::board::BOARD_HEIGHT;
use crate::tetris::keys::{KeyCode, KeySet};
use crate::tetris::piece::{canonical_pieces, Piece};
use crate::tetris::state::{Game, TetrisState, LINE_BONUS, TICKS_PER_DROP};
use vstd::prelude::*;

verus! {

/// How often the game is shown while an agent plays.
#[derive(Clone, Copy, PartialEq, Eq, Debug)]
pub enum DrawConfig {
    /// After every step.
    AllFrame,
    /// Never.
    NoFrames,
    /// Whenever the drop counter is a multiple of the given number.
    EveryNFrames(u64),
}

impl DrawConfig {
    /// Whether a frame is due when the drop counter stands at `drop_count`.
    pub open spec fn due(self, drop_count: int) -> bool {
        match self {
            DrawConfig::AllFrame => true,
            DrawConfig::NoFrames => false,
            DrawConfig::EveryNFrames(n) => drop_count % (n as int) == 0,
        }
    }

    /// Whether the game is to be shown now, with the drop counter at
    /// `drop_count`. A period of zero frames has no meaning and is excluded.
    pub fn frame_due(&self, drop_count: u64) -> (show: bool)
        requires
            *self != DrawConfig::EveryNFrames(0),
        ensures
            show == self.due(drop_count as int),
    {
        match self {
            DrawConfig::AllFrame => true,
            DrawConfig::NoFrames => false,
            DrawConfig::EveryNFrames(n) => drop_count % *n == 0,
        }
    }
}

impl Game {
    /// Whether the counters leave room for one more step, which is two
    /// ticks.
    pub open spec fn can_step(self) -> bool {
        &&& self.drop_count + 2 * TICKS_PER_DROP <= u64::MAX
        &&& self.sub_count + 2 <= u64::MAX
        &&& self.score + 2 * (LINE_BONUS * BOARD_HEIGHT + 1) <= u32::MAX
    }

    /// The game after one step of an agent that presses `key`: a tick with
    /// the key down, then a tick with no key down. `first` and `second` are
    /// the pieces that join the queue if the first or the second tick locks
    /// the piece in play.
    pub open spec fn stepped(self, key: KeyCode, first: Piece, second: Piece) -> Game {
        self.tick(KeySet::nothing().with(key, true), first).tick(KeySet::nothing(), second)
    }

    /// The game after the given steps, each a key and the two pieces that
    /// may join the queue in its two ticks.
    pub open spec fn played(self, steps: Seq<(KeyCode, Piece, Piece)>) -> Game
        decreases steps.len(),
    {
        if steps.len() == 0 {
            self
        } else {
            let last = steps.last();
            self.played(steps.drop_last()).stepped(last.0, last.1, last.2)
        }
    }

    /// Whether the steps make a course of play under `policy` from this
    /// game: each step is taken from a game that is not over and has room
    /// for it, with a key that the policy lets the agent press for that
    /// game, and the pieces that stand by to join the queue are canonical.
    pub open spec fn plays(self, policy: Policy, steps: Seq<(KeyCode, Piece, Piece)>) -> bool {
        forall|n: int|
            0 <= n < steps.len() ==> {
                let then = #[trigger] self.played(steps.take(n));
                &&& !then.is_over
                &&& then.can_step()
                &&& may_press(policy, then, steps[n].0)
                &&& canonical_pieces().contains(steps[n].1)
                &&& canonical_pieces().contains(steps[n].2)
            }
    }

    /// Steps keep a game in play.
    pub proof fn lemma_played_in_play(self, steps: Seq<(KeyCode, Piece, Piece)>)
        requires
            self.in_play(),
        ensures
            self.played(steps).in_play(),
        decreases steps.len(),
    {
        if steps.len() > 0 {
            let last = steps.last();
            let before = self.played(steps.drop_last());
            self.lemma_played_in_play(steps.drop_last());
            let between = before.tick(KeySet::nothing().with(last.0, true), last.1);
            before.lemma_tick_in_play(KeySet::nothing().with(last.0, true), last.1);
            between.lemma_tick_in_play(KeySet::nothing(), last.2);
        }
    }

    /// A game in play that is over, or has no room for a step, has scored:
    /// before the first lock the game is not over, and the counters are
    /// still low, since the piece comes down a row whenever gravity acts.
    pub proof fn lemma_end_has_scored(self)
        requires
            self.in_play(),
            self.is_over || !self.can_step(),
        ensures
            self.score >= 1,
    {
    }
}

/// What an agent may do: for each game, the keys that it may name, where
/// `None` stands for naming no key.
pub type Policy = spec_fn(Game, Option<KeyCode>) -> bool;

/// Whether an agent of the given policy may press `key` for `game`: it may
/// name the key, or the key is `Space` and it may name none.
pub open spec fn may_press(policy: Policy, game: Game, key: KeyCode) -> bool {
    policy(game, Some(key)) || (key == KeyCode::Space && policy(game, None))
}

impl TetrisState {
    /// Whether the counters leave room for one more step of an agent.
    pub fn can_step(&self) -> (room: bool)
        ensures
            room == self@.can_step(),
    {
        let gain: u32 = 2 * (LINE_BONUS * (BOARD_HEIGHT as u32) + 1);
        self.drop_count <= u64::MAX - 2 * TICKS_PER_DROP && self.sub_count <= u64::MAX - 2
            && self.score <= u32::MAX - gain
    }
}

/// Whether `end` is how a game played under `policy` can end: play starts
/// from a fresh game with two canonical pieces, goes on step by step, with
/// keys that the policy allows, while the game is not over and has room, and
/// has reached `end`, where it is over or out of room.
pub open spec fn ends_a_game(policy: Policy, end: Game) -> bool {
    exists|current: Piece, next: Piece, steps: Seq<(KeyCode, Piece, Piece)>|
        {
            &&& canonical_pieces().contains(current)
            &&& canonical_pieces().contains(next)
            &&& #[trigger] Game::fresh(current, next).plays(policy, steps)
            &&& end == Game::fresh(current, next).played(steps)
            &&& (end.is_over || !end.can_step())
        }
}

/// The sum of the scores of the given games.
pub open spec fn score_sum(ends: Seq<Game>) -> int
    decreases ends.len(),
{
    if ends.len() == 0 {
        0
    } else {
        score_sum(ends.drop_last()) + ends.last().score
    }
}

/// Whether `total` can be the fitness of an agent of the given policy,
/// measured over `games` games: the sum of the final scores of that many
/// games, each played under the policy from a fresh start to its end.
pub open spec fn is_fitness(policy: Policy, total: int, games: int) -> bool {
    exists|ends: Seq<Game>|
        {
            &&& ends.len() == games
            &&& forall|i: int| 0 <= i < ends.len() ==> ends_a_game(policy, #[trigger] ends[i])
            &&& total == #[trigger] score_sum(ends)
        }
}

/// Every game that has ended has scored at least one point.
pub proof fn lemma_game_scores(policy: Policy, end: Game)
    requires
        ends_a_game(policy, end),
    ensures
        end.score >= 1,
{
    let (current, next, steps) = choose|
        current: Piece,
        next: Piece,
        steps: Seq<(KeyCode, Piece, Piece)>,
    |
        {
            &&& canonical_pieces().contains(current)
            &&& canonical_pieces().contains(next)
            &&& #[trigger] Game::fresh(current, next).plays(policy, steps)
            &&& end == Game::fresh(current, next).played(steps)
            &&& (end.is_over || !end.can_step())
        };
    Game::lemma_fresh_in_play(current, next);
    Game::fresh(current, next).lemma_played_in_play(steps);
    end.lemma_end_has_scored();
}

/// Games that have each scored at least one point have together scored at
/// least one point a game.
pub proof fn lemma_score_sum(ends: Seq<Game>)
    requires
        forall|i: int| 0 <= i < ends.len() ==> (#[trigger] ends[i]).score >= 1,
    ensures
        score_sum(ends) >= ends.len(),
    decreases ends.len(),
{
    if ends.len() > 0 {
        let fewer = ends.drop_last();
        assert forall|i: int| 0 <= i < fewer.len() implies (#[trigger] fewer[i]).score >= 1 by {
            assert(fewer[i] == ends[i]);
        }
        lemma_score_sum(fewer);
        assert(ends.last() == ends[ends.len() - 1]);
    }
}

/// A fitness is at least the number of games it was measured over.
pub proof fn lemma_fitness_counts_games(policy: Policy, total: int, games: int)
    requires
        is_fitness(policy, total, games),
    ensures
        total >= games,
{
    let ends = choose|ends: Seq<Game>|
        {
            &&& ends.len() == games
            &&& forall|i: int| 0 <= i < ends.len() ==> ends_a_game(policy, #[trigger] ends[i])
            &&& total == #[trigger] score_sum(ends)
        };
    assert forall|i: int| 0 <= i < ends.len() implies (#[trigger] ends[i]).score >= 1 by {
        lemma_game_scores(policy, ends[i]);
    }
    lemma_score_sum(ends);
}

/// A player: something that, shown a game, names the key to press next.
pub trait Agent {
    /// The agent's policy: the keys that it may name for each game. An agent
    /// keeps its policy for as long as it plays. Unless an agent says
    /// otherwise, it may name any key for any game.
    open spec fn policy(&self) -> Policy {
        |game: Game, key: Option<KeyCode>| true
    }

    /// The key to press in this tick, or `None` to let the piece fall where
    /// it stands.
    fn get_action(&mut self, state: &TetrisState) -> (key: Option<KeyCode>)
        ensures
            (old(self).policy())(state@, key),
            final(self).policy() == old(self).policy(),
    ;

    /// Plays one step: asks for a key, advances the game by one tick with
    /// that key down, or with `Space` down if none was named, and by one
    /// more tick with no key down. Returns the key that was down.
    fn step(&mut self, state: &mut TetrisState) -> (key: KeyCode)
        requires
            old(state)@.can_step(),
        ensures
            may_press(old(self).policy(), old(state)@, key),
            final(self).policy() == old(self).policy(),
            exists|first: Piece, second: Piece|
                {
                    &&& canonical_pieces().contains(first)
                    &&& canonical_pieces().contains(second)
                    &&& #[trigger] old(state)@.stepped(key, first, second) == final(state)@
                },
            old(state)@.score <= final(state)@.score,
            old(state)@.drop_count <= final(state)@.drop_count,
            final(state)@.is_over || old(state)@.drop_count + 2 <= final(state)@.drop_count,
    {
        let key = match self.get_action(state) {
            Some(key) => key,
            None => KeyCode::Space,
        };
        let ghost before = state@;
        state.update(&KeySet::only(key));
        let ghost between = state@;
        proof {
            before.lemma_tick_counters(KeySet::nothing().with(key, true), between.next_piece);
        }
        state.update(&KeySet::none());
        proof {
            between.lemma_tick_counters(KeySet::nothing(), state@.next_piece);
            let spare = canonical_pieces()[0];
            let first = if before.locks() {
                between.next_piece
            } else {
                spare
            };
            let second = if between.locks() {
                state@.next_piece
            } else {
                spare
            };
            if !before.locks() {
                before.lemma_tick_without_lock(
                    KeySet::nothing().with(key, true),
                    between.next_piece,
                    spare,
                );
            }
            if !between.locks() {
                between.lemma_tick_without_lock(KeySet::nothing(), state@.next_piece, spare);
            }
            assert(canonical_pieces().contains(spare));
            assert(before.stepped(key, first, second) == state@);
        }
        key
    }

    /// Plays the game step by step until it is over. The loop also ends
    /// when the counters leave no room for another step, which no game
    /// reaches in practice.
    fn run(&mut self, state: &mut TetrisState)
        ensures
            final(state)@.is_over || !final(state)@.can_step(),
            final(self).policy() == old(self).policy(),
            exists|steps: Seq<(KeyCode, Piece, Piece)>|
                old(state)@.plays(old(self).policy(), steps) && final(state)@ == old(
                    state,
                )@.played(steps),
            old(state)@.score <= final(state)@.score,
    {
        let ghost start = state@;
        let ghost steps = Seq::<(KeyCode, Piece, Piece)>::empty();
        while !state.is_over && state.can_step()
            invariant
                self.policy() == old(self).policy(),
                start.plays(old(self).policy(), steps),
                state@ == start.played(steps),
                start.score <= state@.score,
            decreases
                    2 * (u64::MAX - state@.drop_count) + if state@.is_over {
                        0int
                    } else {
                        1int
                    },
        {
            let ghost before = state@;
            let key = self.step(state);
            proof {
                let (first, second) = choose|first: Piece, second: Piece|
                    {
                        &&& canonical_pieces().contains(first)
                        &&& canonical_pieces().contains(second)
                        &&& #[trigger] before.stepped(key, first, second) == state@
                    };
                let longer = steps.push((key, first, second));
                assert(longer.drop_last() =~= steps);
                assert forall|n: int| 0 <= n < longer.len() implies {
                    let then = #[trigger] start.played(longer.take(n));
                    &&& !then.is_over
                    &&& then.can_step()
                    &&& may_press(old(self).policy(), then, longer[n].0)
                    &&& canonical_pieces().contains(longer[n].1)
                    &&& canonical_pieces().contains(longer[n].2)
                } by {
                    if n < steps.len() {
                        assert(longer.take(n) =~= steps.take(n));
                    } else {
                        assert(longer.take(n) =~= steps);
                    }
                }
                steps = longer;
            }
        }
    }

    /// Plays `n` games from start to end and returns the sum of their final
    /// scores. The mean score is that sum divided by `n`; as long as `n` is
    /// the same, comparing sums is comparing means. Every game scores at
    /// least one point, so the sum is at least `n`. The state is started
    /// over before each game and once more after the last.
    fn evaluate(&mut self, state: &mut TetrisState, n: usize) -> (total: u64)
        requires
            n <= u32::MAX,
        ensures
            is_fitness(old(self).policy(), total as int, n as int),
            final(self).policy() == old(self).policy(),
            n <= total <= n * u32::MAX,
            final(state)@ == Game::fresh(final(state)@.current_piece, final(state)@.next_piece),
            canonical_pieces().contains(final(state)@.current_piece),
            canonical_pieces().contains(final(state)@.next_piece),
    {
        let mut total: u64 = 0;
        state.reset();
        let mut i: usize = 0;
        let ghost ends = Seq::<Game>::empty();
        while i < n
            invariant
                0 <= i <= n <= u32::MAX,
                total <= i * u32::MAX,
                state@ == Game::fresh(state@.current_piece, state@.next_piece),
                canonical_pieces().contains(state@.current_piece),
                canonical_pieces().contains(state@.next_piece),
                self.policy() == old(self).policy(),
                ends.len() == i,
                forall|k: int|
                    0 <= k < ends.len() ==> ends_a_game(old(self).policy(), #[trigger] ends[k]),
                total == score_sum(ends),
            decreases n - i,
        {
            let ghost fresh = state@;
            assert(i * u32::MAX + u32::MAX <= n * u32::MAX) by (nonlinear_arith)
                requires
                    0 <= i < n,
            ;
            assert(n * u32::MAX <= u32::MAX * u32::MAX) by (nonlinear_arith)
                requires
                    0 <= n <= u32::MAX,
            ;
            self.run(state);
            proof {
                let steps = choose|steps: Seq<(KeyCode, Piece, Piece)>|
                    fresh.plays(old(self).policy(), steps) && state@ == fresh.played(steps);
                assert(Game::fresh(fresh.current_piece, fresh.next_piece).plays(
                    old(self).policy(),
                    steps,
                ));
                assert(ends_a_game(old(self).policy(), state@));
                assert(ends.push(state@).drop_last() =~= ends);
                ends = ends.push(state@);
            }
            total += state.score as u64;
            state.reset();
            i += 1;
        }
        proof {
            lemma_fitness_counts_games(old(self).policy(), total as int, n as int);
        }
        total
    }
}

} // verus!
