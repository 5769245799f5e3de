//! The agent that searches with a vector of weights, and the optimizer that
//! breeds such vectors: it lets every candidate play, picks parents in
//! proportion to their scores, and crosses and nudges their weights.

use crate::agent::{is_fitness, Agent, Policy};
use crate::misc::heuristics::{loss, weighted_loss, N_HEURISTICS};
use crate::misc::sampling::{choose_one, entropy_rng, gen_below, gen_ratio};
use crate::tetris::board::{grid, TetrisBoard};
use crate::tetris::keys::KeyCode;
use crate::tetris::search::key_toward;
use crate::tetris::state::{Game, TetrisState};
use rand::rngs::SmallRng;
use vstd::prelude::*;

verus! {

/// How many thousandths make one unit of weight: weights, and the draws
/// that make and nudge them, are whole numbers of thousandths.
pub const WEIGHT_SCALE: i64 = 1000;

/// The standard deviation of a newly drawn weight, in units of weight.
pub const STD_DEV: i64 = 100;

/// A supply of draws from the standard normal distribution, each given in
/// thousandths and rounded to a whole number of them.
pub trait NormalSource {
    /// The next draw.
    fn standard_normal(&mut self) -> (sample: i64);
}

/// A source that hands out recorded draws in their order, over and over. A
/// source without a record hands out zeros.
#[derive(Clone, Debug)]
pub struct Replay {
    /// The recorded draws.
    pub draws: Vec<i64>,
    /// The place in the record of the draw that is handed out next.
    pub next: usize,
}

impl Replay {
    /// The draw that is handed out next.
    pub open spec fn upcoming(self) -> i64 {
        if self.draws@.len() == 0 {
            0
        } else {
            self.draws@[self.next as int % self.draws@.len() as int]
        }
    }

    /// The place in the record after the one that is handed out next.
    pub open spec fn place_after(self) -> int {
        let len = self.draws@.len() as int;
        (self.next as int % len + 1) % len
    }

    /// A source that starts at the first of the recorded draws.
    pub fn new(draws: Vec<i64>) -> (source: Replay)
        ensures
            source.draws == draws,
            source.next == 0,
    {
        Replay { draws, next: 0 }
    }
}

impl NormalSource for Replay {
    /// The recorded draw whose turn it is.
    fn standard_normal(&mut self) -> (sample: i64)
        ensures
            sample == old(self).upcoming(),
            final(self).draws == old(self).draws,
            old(self).draws@.len() > 0 ==> final(self).next == old(self).place_after(),
            old(self).draws@.len() == 0 ==> final(self).next == old(self).next,
    {
        let len: usize = self.draws.len();
        if len == 0 {
            return 0;
        }
        let place: usize = self.next % len;
        self.next = (place + 1) % len;
        self.draws[place]
    }
}

/// A probability, as a fraction.
#[derive(Clone, Copy, PartialEq, Eq, Debug)]
pub struct Ratio {
    pub numerator: u32,
    pub denominator: u32,
}

impl Ratio {
    /// Whether the fraction names a probability: it lies between zero and
    /// one, and its denominator is not zero.
    pub open spec fn wf(self) -> bool {
        0 < self.denominator && self.numerator <= self.denominator
    }
}

/// Why a training run ended early.
#[derive(Clone, Copy, PartialEq, Eq, Structural, Debug)]
pub enum TrainingError {
    /// Every candidate of a generation scored zero, so that no candidate
    /// has a share of the total to be picked by.
    NoFitness,
}

/// What a training run returns.
#[derive(Clone, Debug)]
pub struct Training {
    /// The best candidate of the last generation.
    pub best_agent: GeneticAgent,
    /// Its fitness.
    pub best_score: u64,
    /// The best fitness of each generation, in order.
    pub history: Vec<u64>,
}

/// An agent that plays by the move search, with its own vector of weights.
#[derive(Debug, Clone, Copy, PartialEq, Eq)]
pub struct GeneticAgent {
    pub weights: [i64; N_HEURISTICS],
}

/// `v` brought into the range of a weight.
pub open spec fn clamp_weight(v: int) -> int {
    if v < i64::MIN {
        i64::MIN as int
    } else if v > i64::MAX {
        i64::MAX as int
    } else {
        v
    }
}

/// The weight that a standard normal draw makes: the draw times `STD_DEV`.
pub open spec fn drawn_weight(sample: i64) -> int {
    clamp_weight(STD_DEV * sample)
}

/// The weight that a draw nudges `weight` to: the weight plus the draw.
pub open spec fn nudged_weight(weight: i64, sample: i64) -> int {
    clamp_weight(weight + sample)
}

/// Whether two vectors of weights agree everywhere but, possibly, at
/// `index`.
pub open spec fn same_but_at(a: [i64; N_HEURISTICS], b: [i64; N_HEURISTICS], index: int) -> bool {
    forall|j: int| 0 <= j < N_HEURISTICS && j != index ==> a[j] == b[j]
}

/// Whether the four draws make the weights: each weight is its draw times
/// `STD_DEV`.
pub open spec fn made_from(weights: [i64; N_HEURISTICS], samples: [i64; N_HEURISTICS]) -> bool {
    forall|i: int| 0 <= i < N_HEURISTICS ==> weights[i] == drawn_weight(#[trigger] samples[i])
}

/// Whether the agent's weights are newly drawn ones: some four draws make
/// them.
pub open spec fn newly_drawn(agent: GeneticAgent) -> bool {
    exists|samples: [i64; N_HEURISTICS]| made_from(agent.weights, samples)
}

/// Whether `after` is `before` with the weight at `index` replaced by the
/// one that `sample` makes.
pub open spec fn redrawn_at(
    after: [i64; N_HEURISTICS],
    before: [i64; N_HEURISTICS],
    index: int,
    sample: i64,
) -> bool {
    &&& 0 <= index < N_HEURISTICS
    &&& after[index] == drawn_weight(sample)
    &&& same_but_at(after, before, index)
}

/// Whether `after` is `before` with `sample` added to the weight at `index`.
pub open spec fn nudged_at(
    after: [i64; N_HEURISTICS],
    before: [i64; N_HEURISTICS],
    index: int,
    sample: i64,
) -> bool {
    &&& 0 <= index < N_HEURISTICS
    &&& after[index] == nudged_weight(before[index], sample)
    &&& same_but_at(after, before, index)
}

/// Whether a child's weights are those of a crossing of `a` and `b`: each
/// is the weight of one of the two at the same place. With `nudged` set, the
/// weight at `index` is left out of the claim.
pub open spec fn bred_from(
    child: GeneticAgent,
    a: GeneticAgent,
    b: GeneticAgent,
    nudged: bool,
    index: int,
) -> bool {
    forall|i: int|
        0 <= i < N_HEURISTICS ==> (nudged && i == index) || child.weights[i] == a.weights[i]
            || child.weights[i] == b.weights[i]
}

/// Whether `child` can come of one round of breeding from `pool` with
/// mutation probability `mutation`: it is a crossing of two members of the
/// pool in which, unless the probability is zero, one weight may have been
/// nudged.
pub open spec fn offspring_of(
    child: GeneticAgent,
    pool: Seq<GeneticAgent>,
    mutation: Ratio,
) -> bool {
    exists|a: GeneticAgent, b: GeneticAgent, nudged: bool, index: int|
        pool.contains(a) && pool.contains(b) && (nudged ==> mutation.numerator > 0)
            && #[trigger] bred_from(child, a, b, nudged, index)
}

/// Whether `after` is `before` with one weight drawn anew.
pub open spec fn redrawn(after: GeneticAgent, before: GeneticAgent) -> bool {
    exists|index: int, sample: i64| redrawn_at(after.weights, before.weights, index, sample)
}

/// Whether `rounds` can be the rounds of a climb by mutation from `start`,
/// each round given as the agent that played it and the fitness it measured
/// over `games` games: the first round is played by `start`, every later
/// one by the agent of the round before with one weight drawn anew, and
/// each fitness is one that its agent can measure.
pub open spec fn is_climb(
    start: GeneticAgent,
    rounds: Seq<(GeneticAgent, int)>,
    games: int,
) -> bool {
    forall|i: int|
        0 <= i < rounds.len() ==> {
            let round = #[trigger] rounds[i];
            &&& is_fitness(round.0.policy(), round.1, games)
            &&& i == 0 ==> round.0 == start
            &&& i > 0 ==> redrawn(round.0, rounds[i - 1].0)
        }
}

/// What a climb holds after the given rounds, as the agent it has noted and
/// the best fitness so far: it starts with `start` and `best_score`, and a
/// round takes their place if and only if its fitness is above the best so
/// far, so that among rounds of equal fitness the first one stays.
pub open spec fn climbed(
    start: GeneticAgent,
    best_score: int,
    rounds: Seq<(GeneticAgent, int)>,
) -> (GeneticAgent, int)
    decreases rounds.len(),
{
    if rounds.len() == 0 {
        (start, best_score)
    } else {
        let before = climbed(start, best_score, rounds.drop_last());
        if rounds.last().1 > before.1 {
            rounds.last()
        } else {
            before
        }
    }
}

/// Whether a climb of `k` rounds from `start` and `best_score`, with `games`
/// games to a round, can go through `rounds` and end with the agent `end`
/// and the fitness `best`.
pub open spec fn climbs_to(
    start: GeneticAgent,
    best_score: int,
    games: int,
    k: int,
    rounds: Seq<(GeneticAgent, int)>,
    end: GeneticAgent,
    best: int,
) -> bool {
    &&& rounds.len() == k
    &&& is_climb(start, rounds, games)
    &&& climbed(start, best_score, rounds) == (end, best)
}

/// The sum of the first `n` shares.
pub open spec fn share_sum(shares: Seq<u64>, n: int) -> int
    decreases n,
{
    if n <= 0 {
        0
    } else {
        share_sum(shares, n - 1) + shares[n - 1]
    }
}

/// The sum of all shares.
pub open spec fn total_share(shares: Seq<u64>) -> int {
    share_sum(shares, shares.len() as int)
}

/// Whether the wheel, turned to `draw`, stops at candidate `i`: the shares
/// before `i` sum to `draw` at most, and with the share of `i` to more.
pub open spec fn wheel_stops_at(shares: Seq<u64>, draw: int, i: int) -> bool {
    0 <= i < shares.len() && share_sum(shares, i) <= draw < share_sum(shares, i + 1)
}

/// Whether `parent` is a candidate that the wheel can stop at: a member of
/// the population with a fitness above zero.
pub open spec fn can_be_drawn(
    parent: GeneticAgent,
    population: Seq<GeneticAgent>,
    fitness: Seq<u64>,
) -> bool {
    exists|i: int|
        0 <= i < population.len() && 0 <= i < fitness.len() && fitness[i] > 0
            && #[trigger] population[i] == parent
}

/// Whether `i` is the place of the fittest candidate: no fitness is higher,
/// and every later one is lower.
pub open spec fn is_fittest(fitness: Seq<u64>, i: int) -> bool {
    &&& 0 <= i < fitness.len()
    &&& forall|j: int| 0 <= j < fitness.len() ==> fitness[j] <= fitness[i]
    &&& forall|j: int| i < j < fitness.len() ==> fitness[j] < fitness[i]
}

/// Whether `fitness` can be what the candidates of `population` measure,
/// place by place, each over `games` games.
pub open spec fn ranks(population: Seq<GeneticAgent>, fitness: Seq<u64>, games: int) -> bool {
    &&& fitness.len() == population.len()
    &&& forall|i: int|
        0 <= i < fitness.len() ==> is_fitness(
            population[i].policy(),
            (#[trigger] fitness[i]) as int,
            games,
        )
}

/// Whether `agent` with `score` is the best of `population` by the measured
/// `fitness`: the fitness is one that the population can measure, `best` is
/// the place of the fittest, and the agent and the score are the candidate
/// and the fitness at that place.
pub open spec fn is_best_of(
    population: Seq<GeneticAgent>,
    fitness: Seq<u64>,
    best: int,
    games: int,
    agent: GeneticAgent,
    score: u64,
) -> bool {
    &&& ranks(population, fitness, games)
    &&& is_fittest(fitness, best)
    &&& agent == population[best]
    &&& score == fitness[best]
}

/// Whether `agent` with `score` is the best of `population` by some fitness
/// that the population can measure over `games` games.
pub open spec fn best_of(
    population: Seq<GeneticAgent>,
    games: int,
    agent: GeneticAgent,
    score: u64,
) -> bool {
    exists|fitness: Seq<u64>, best: int|
        is_best_of(population, fitness, best, games, agent, score)
}

/// Whether `next` can be bred from `population` with the given `fitness`
/// through the parents in `pool`: the fitness is not all zero, every parent
/// is a candidate with a fitness above zero, there are `selection_size`
/// parents and as many children as candidates, and every child is an
/// offspring of the pool.
pub open spec fn bred_through(
    population: Seq<GeneticAgent>,
    fitness: Seq<u64>,
    pool: Seq<GeneticAgent>,
    next: Seq<GeneticAgent>,
    selection_size: int,
    mutation: Ratio,
) -> bool {
    &&& total_share(fitness) > 0
    &&& pool.len() == selection_size
    &&& forall|k: int| 0 <= k < pool.len() ==> can_be_drawn(#[trigger] pool[k], population, fitness)
    &&& next.len() == population.len()
    &&& forall|k: int| 0 <= k < next.len() ==> offspring_of(#[trigger] next[k], pool, mutation)
}

/// Whether `next` can be bred from `population` with the given `fitness`.
pub open spec fn breeds(
    population: Seq<GeneticAgent>,
    fitness: Seq<u64>,
    next: Seq<GeneticAgent>,
    selection_size: int,
    mutation: Ratio,
) -> bool {
    exists|pool: Seq<GeneticAgent>|
        bred_through(population, fitness, pool, next, selection_size, mutation)
}

/// Whether `next` can be the generation after `population`: the population
/// measures some fitness over `games` games, and `next` is bred from it with
/// that fitness.
pub open spec fn follows(
    population: Seq<GeneticAgent>,
    next: Seq<GeneticAgent>,
    games: int,
    selection_size: int,
    mutation: Ratio,
) -> bool {
    exists|fitness: Seq<u64>|
        ranks(population, fitness, games) && #[trigger] breeds(
            population,
            fitness,
            next,
            selection_size,
            mutation,
        )
}

/// Whether `last` can be the population that `first` has become after the
/// given number of generations were bred, one from the other.
pub open spec fn descends(
    first: Seq<GeneticAgent>,
    last: Seq<GeneticAgent>,
    generations: nat,
    games: int,
    selection_size: int,
    mutation: Ratio,
) -> bool
    decreases generations,
{
    if generations == 0 {
        last == first
    } else {
        exists|mid: Seq<GeneticAgent>|
            descends(first, mid, (generations - 1) as nat, games, selection_size, mutation)
                && #[trigger] follows(mid, last, games, selection_size, mutation)
    }
}

/// What one generation gives: the best candidate and its fitness, and the
/// population that comes after, or the reason why none could be bred.
#[derive(Debug)]
pub struct Generation {
    /// The best candidate of the generation.
    pub best_agent: GeneticAgent,
    /// Its fitness.
    pub best_score: u64,
    /// The next population; for the last generation, the population as it
    /// was.
    pub next: Result<Vec<GeneticAgent>, TrainingError>,
}

/// Whether `outcome` can be what a generation of `population` gives, with
/// `fitness` as what was measured and `best` as the place of the fittest.
/// The best candidate is the fittest by that fitness. The last generation
/// hands the population on as it was. Any other generation breeds the next
/// population from it, and fails if and only if the fitness is all zero.
pub open spec fn is_generation(
    population: Seq<GeneticAgent>,
    fitness: Seq<u64>,
    best: int,
    games: int,
    selection_size: int,
    mutation: Ratio,
    is_last: bool,
    outcome: Generation,
) -> bool {
    &&& is_best_of(population, fitness, best, games, outcome.best_agent, outcome.best_score)
    &&& games <= outcome.best_score <= games * u32::MAX
    &&& is_last ==> (outcome.next matches Ok(next) && next@ == population)
    &&& !is_last ==> (outcome.next is Err <==> total_share(fitness) == 0)
    &&& !is_last ==> (outcome.next matches Ok(next) ==> breeds(
        population,
        fitness,
        next@,
        selection_size,
        mutation,
    ))
}

/// Whether `first` can be a newly drawn population of the given size.
pub open spec fn drawn_population(first: Seq<GeneticAgent>, size: int) -> bool {
    &&& first.len() == size
    &&& forall|k: int| 0 <= k < first.len() ==> newly_drawn(#[trigger] first[k])
}

/// Whether `score` can be the best fitness of the generation that comes
/// after `g` breedings from `first`: some population descends from `first`
/// by that many breedings, and the score is that of its best candidate, by
/// a fitness that it can measure.
pub open spec fn is_best_in_generation(
    first: Seq<GeneticAgent>,
    g: nat,
    games: int,
    selection_size: int,
    mutation: Ratio,
    score: u64,
) -> bool {
    exists|mid: Seq<GeneticAgent>, agent: GeneticAgent|
        descends(first, mid, g, games, selection_size, mutation) && #[trigger] best_of(
            mid,
            games,
            agent,
            score,
        )
}

/// Whether `training` can be what training `first` for `num_generations`
/// generations gives. The history holds, for each generation, the best
/// fitness of the population that the generation played with. Without
/// generations, the first candidate comes back with a fitness of zero.
/// Otherwise the population has gone through one breeding
/// less than there are generations, and what comes back is the best of that
/// last population, by the fitness that it measured, with that fitness.
/// After a single generation that is the best of `first` itself, and its
/// only candidate if it has but one.
pub open spec fn trained(
    first: Seq<GeneticAgent>,
    games: int,
    num_generations: int,
    selection_size: int,
    mutation: Ratio,
    training: Training,
) -> bool {
    &&& training.history@.len() == num_generations
    &&& forall|g: int|
        0 <= g < num_generations ==> is_best_in_generation(
            first,
            g as nat,
            games,
            selection_size,
            mutation,
            #[trigger] training.history@[g],
        ) && games <= training.history@[g] <= games * u32::MAX
    &&& num_generations == 0 ==> training.best_score == 0 && training.best_agent == first[0]
    &&& num_generations == 1 ==> {
        &&& best_of(first, games, training.best_agent, training.best_score)
        &&& first.contains(training.best_agent)
        &&& first.len() == 1 ==> training.best_agent == first[0]
    }
    &&& num_generations >= 1 ==> {
        &&& training.best_score == training.history@[num_generations - 1]
        &&& exists|last: Seq<GeneticAgent>|
            descends(first, last, (num_generations - 1) as nat, games, selection_size, mutation)
                && #[trigger] best_of(last, games, training.best_agent, training.best_score)
    }
}

/// Shares that are all zero sum to zero.
pub proof fn lemma_no_shares(shares: Seq<u64>, n: int)
    requires
        0 <= n <= shares.len(),
        forall|i: int| 0 <= i < shares.len() ==> shares[i] == 0,
    ensures
        share_sum(shares, n) == 0,
    decreases n,
{
    if n > 0 {
        lemma_no_shares(shares, n - 1);
    }
}

/// The sums of shares grow with the number of shares summed.
pub proof fn lemma_share_sum_grows(shares: Seq<u64>, n: int, m: int)
    requires
        0 <= n <= m,
    ensures
        0 <= share_sum(shares, n) <= share_sum(shares, m),
    decreases m,
{
    if n < m {
        lemma_share_sum_grows(shares, n, m - 1);
    } else if n > 0 {
        lemma_share_sum_grows(shares, n - 1, n - 1);
    }
}

/// No share is above `u64::MAX`, and so neither is their mean.
pub proof fn lemma_share_sum_bound(shares: Seq<u64>, n: int)
    requires
        0 <= n <= shares.len(),
    ensures
        share_sum(shares, n) <= n * u64::MAX,
    decreases n,
{
    if n > 0 {
        lemma_share_sum_bound(shares, n - 1);
    }
}

/// The wheel stops at one candidate only, and at one with a share.
pub proof fn lemma_wheel_stops_once(shares: Seq<u64>, draw: int, i: int, j: int)
    requires
        wheel_stops_at(shares, draw, i),
        wheel_stops_at(shares, draw, j),
    ensures
        i == j,
        shares[i] > 0,
{
    if i < j {
        lemma_share_sum_grows(shares, i + 1, j);
    } else if j < i {
        lemma_share_sum_grows(shares, j + 1, i);
    }
}

/// `v` as a weight, brought into range if it is out of it.
fn saturate(v: i128) -> (w: i64)
    ensures
        w == clamp_weight(v as int),
{
    if v < i64::MIN as i128 {
        i64::MIN
    } else if v > i64::MAX as i128 {
        i64::MAX
    } else {
        v as i64
    }
}

/// The weight that a standard normal draw makes.
fn weight_from(sample: i64) -> (w: i64)
    ensures
        w == drawn_weight(sample),
{
    assert(-0x8000_0000_0000_0000 * 100 <= STD_DEV * sample <= 0x8000_0000_0000_0000 * 100)
        by (nonlinear_arith)
        requires
            -0x8000_0000_0000_0000 <= sample <= 0x8000_0000_0000_0000,
            STD_DEV == 100,
    ;
    saturate((STD_DEV as i128) * (sample as i128))
}

impl GeneticAgent {
    /// The agent whose weights the four draws make: each weight is its draw
    /// times `STD_DEV`.
    pub fn from_samples(samples: [i64; N_HEURISTICS]) -> (agent: GeneticAgent)
        ensures
            made_from(agent.weights, samples),
    {
        GeneticAgent {
            weights: [
                weight_from(samples[0]),
                weight_from(samples[1]),
                weight_from(samples[2]),
                weight_from(samples[3]),
            ],
        }
    }

    /// An agent with weights drawn from the normal distribution of mean zero
    /// and standard deviation `STD_DEV`: four draws are taken from `source`
    /// and each makes one weight.
    pub fn new<S: NormalSource>(source: &mut S) -> (agent: GeneticAgent)
        ensures
            newly_drawn(agent),
    {
        let a: i64 = source.standard_normal();
        let b: i64 = source.standard_normal();
        let c: i64 = source.standard_normal();
        let d: i64 = source.standard_normal();
        GeneticAgent::from_samples([a, b, c, d])
    }

    /// The child that the given choices make of this agent and `other`: it
    /// takes the weight at each place from this agent where the choice at
    /// that place is set, and from `other` where it is not.
    pub fn crossed(
        &self,
        other: &GeneticAgent,
        from_self: [bool; N_HEURISTICS],
    ) -> (child: GeneticAgent)
        ensures
            forall|i: int|
                0 <= i < N_HEURISTICS ==> child.weights[i] == (if from_self[i] {
                    self.weights[i]
                } else {
                    other.weights[i]
                }),
    {
        let mut weights: [i64; N_HEURISTICS] = [0; N_HEURISTICS];
        let mut i: usize = 0;
        while i < N_HEURISTICS
            invariant
                0 <= i <= N_HEURISTICS,
                forall|k: int|
                    0 <= k < i ==> weights[k] == (if from_self[k] {
                        self.weights[k]
                    } else {
                        other.weights[k]
                    }),
            decreases N_HEURISTICS - i,
        {
            weights[i] = if from_self[i] {
                self.weights[i]
            } else {
                other.weights[i]
            };
            i += 1;
        }
        GeneticAgent { weights }
    }

    /// A child of this agent and `other`: each weight is taken from this
    /// agent with probability `p` and from `other` otherwise, each on a draw
    /// of its own. With `p` at one the child is this agent's equal, with `p`
    /// at zero it is the equal of `other`.
    pub fn breed(&self, other: &GeneticAgent, p: Ratio) -> (child: GeneticAgent)
        requires
            p.wf(),
        ensures
            bred_from(child, *self, *other, false, 0),
            p.numerator == p.denominator ==> child.weights == self.weights,
            p.numerator == 0 ==> child.weights == other.weights,
    {
        let mut from_self: [bool; N_HEURISTICS] = [false; N_HEURISTICS];
        let mut rng = entropy_rng();
        let mut i: usize = 0;
        while i < N_HEURISTICS
            invariant
                0 <= i <= N_HEURISTICS,
                p.wf(),
                p.numerator == p.denominator ==> forall|k: int| 0 <= k < i ==> from_self[k],
                p.numerator == 0 ==> forall|k: int| 0 <= k < i ==> !from_self[k],
            decreases N_HEURISTICS - i,
        {
            from_self[i] = gen_ratio(&mut rng, p.numerator, p.denominator);
            i += 1;
        }
        let child = self.crossed(other, from_self);
        proof {
            if p.numerator == p.denominator {
                assert(child.weights =~= self.weights);
            }
            if p.numerator == 0 {
                assert(child.weights =~= other.weights);
            }
        }
        child
    }

    /// Puts the weight at `index` to the one that `sample` makes.
    pub fn set_weight(&mut self, index: usize, sample: i64)
        requires
            index < N_HEURISTICS,
        ensures
            redrawn_at(final(self).weights, old(self).weights, index as int, sample),
    {
        self.weights[index] = weight_from(sample);
    }

    /// Adds `sample` to the weight at `index`.
    pub fn nudge_weight(&mut self, index: usize, sample: i64)
        requires
            index < N_HEURISTICS,
        ensures
            nudged_at(final(self).weights, old(self).weights, index as int, sample),
    {
        self.weights[index] = saturate(self.weights[index] as i128 + sample as i128);
    }

    /// Replaces one weight, picked by `rng` with the same chance for each,
    /// by a newly drawn one.
    pub fn mutate_random_weight<S: NormalSource>(&mut self, rng: &mut SmallRng, source: &mut S)
        ensures
            exists|index: int, sample: i64|
                redrawn_at(final(self).weights, old(self).weights, index, sample),
    {
        let places: [usize; N_HEURISTICS] = [0, 1, 2, 3];
        if let Some(index) = choose_one(places.as_slice(), rng) {
            assert(places@.contains(index));
            let sample: i64 = source.standard_normal();
            self.set_weight(index, sample);
        }
    }

    /// Nudges one weight, picked by `rng` with the same chance for each, by
    /// a standard normal draw: a small step, a hundredth of the spread of a
    /// newly drawn weight.
    pub fn nudge_random_weight<S: NormalSource>(&mut self, rng: &mut SmallRng, source: &mut S)
        ensures
            exists|index: int, sample: i64|
                nudged_at(final(self).weights, old(self).weights, index, sample),
    {
        let places: [usize; N_HEURISTICS] = [0, 1, 2, 3];
        if let Some(index) = choose_one(places.as_slice(), rng) {
            assert(places@.contains(index));
            let sample: i64 = source.standard_normal();
            self.nudge_weight(index, sample);
        }
    }

    /// The loss of a board under this agent's weights.
    pub fn loss_function(&self, board: &TetrisBoard) -> (total: i128)
        ensures
            total == weighted_loss(self.weights, grid(*board)),
    {
        loss(&self.weights, board)
    }
}

impl Agent for GeneticAgent {
    /// The agent names the key that the move search gives for its weights,
    /// and no other.
    open spec fn policy(&self) -> Policy {
        |game: Game, key: Option<KeyCode>| key == key_toward(game.best(self.weights), game.pos.0)
    }

    /// The key that brings the piece in play one step nearer to the best
    /// placement under this agent's weights.
    fn get_action(&mut self, state: &TetrisState) -> (key: Option<KeyCode>)
        ensures
            *final(self) == *old(self),
    {
        state.pick_move_by_key(&self.weights)
    }
}

/// The place of the fittest candidate: the highest fitness and, among equal
/// ones, the last.
pub fn fittest(fitness: &[u64]) -> (best: usize)
    requires
        fitness@.len() > 0,
    ensures
        is_fittest(fitness@, best as int),
{
    let mut best: usize = 0;
    let mut i: usize = 1;
    while i < fitness.len()
        invariant
            1 <= i <= fitness@.len(),
            0 <= best < i,
            forall|j: int| 0 <= j < i ==> fitness@[j] <= fitness@[best as int],
            forall|j: int| best < j < i ==> fitness@[j] < fitness@[best as int],
        decreases fitness@.len() - i,
    {
        if fitness[i] >= fitness[best] {
            best = i;
        }
        i += 1;
    }
    best
}

/// The sum of all shares.
pub fn sum_shares(shares: &[u64]) -> (total: u128)
    ensures
        total == total_share(shares@),
{
    let mut total: u128 = 0;
    let mut i: usize = 0;
    while i < shares.len()
        invariant
            0 <= i <= shares@.len(),
            total == share_sum(shares@, i as int),
            total <= i * u64::MAX,
        decreases shares@.len() - i,
    {
        assert(i * u64::MAX + u64::MAX <= u64::MAX * u64::MAX) by (nonlinear_arith)
            requires
                0 <= i < u64::MAX,
        ;
        total += shares[i] as u128;
        i += 1;
    }
    total
}

/// Fitness-proportional selection: the candidate at which the wheel stops
/// when it is turned to `r`. Each candidate takes up a stretch of the wheel
/// as long as its share, in order; the wheel stops at the first candidate
/// whose stretch ends past `r`. `r` must lie on the wheel, that is below the
/// sum of all shares.
pub fn roulette_wheel<T: Copy>(a: &[T], ps: &[u64], r: u128) -> (pick: T)
    requires
        a@.len() == ps@.len(),
        r < total_share(ps@),
    ensures
        exists|i: int| wheel_stops_at(ps@, r as int, i) && pick == a@[i],
{
    let mut total: u128 = 0;
    let mut i: usize = 0;
    loop
        invariant
            0 <= i < ps@.len(),
            a@.len() == ps@.len(),
            total == share_sum(ps@, i as int),
            total <= r < total_share(ps@),
        decreases ps@.len() - i,
    {
        proof {
            lemma_share_sum_grows(ps@, i + 1, ps@.len() as int);
            lemma_share_sum_bound(ps@, i + 1);
            assert((i + 1) * u64::MAX <= (u64::MAX + 1) * u64::MAX) by (nonlinear_arith)
                requires
                    0 <= i <= u64::MAX,
            ;
        }
        total += ps[i] as u128;
        if total > r {
            assert(wheel_stops_at(ps@, r as int, i as int));
            return a[i];
        }
        i += 1;
    }
}

/// Draws the parents of the next generation: `selection_size` candidates,
/// each picked on a draw of its own with a chance in proportion to its
/// fitness, so that a candidate may be picked more than once and one without
/// fitness never is. If no candidate has any fitness there are no
/// proportions to pick by, and the selection fails.
pub fn select(
    population: &Vec<GeneticAgent>,
    fitness: &Vec<u64>,
    selection_size: usize,
    rng: &mut SmallRng,
) -> (pool: Result<Vec<GeneticAgent>, TrainingError>)
    requires
        population@.len() == fitness@.len(),
    ensures
        pool is Err <==> total_share(fitness@) == 0,
        pool matches Ok(parents) ==> {
            &&& parents@.len() == selection_size
            &&& forall|k: int|
                0 <= k < parents@.len() ==> can_be_drawn(
                    #[trigger] parents@[k],
                    population@,
                    fitness@,
                )
        },
{
    let total: u128 = sum_shares(fitness.as_slice());
    if total == 0 {
        return Err(TrainingError::NoFitness);
    }
    let mut parents: Vec<GeneticAgent> = Vec::new();
    while parents.len() < selection_size
        invariant
            population@.len() == fitness@.len(),
            total == total_share(fitness@),
            total > 0,
            parents@.len() <= selection_size,
            forall|k: int|
                0 <= k < parents@.len() ==> can_be_drawn(
                    #[trigger] parents@[k],
                    population@,
                    fitness@,
                ),
        decreases selection_size - parents@.len(),
    {
        let r: u128 = gen_below(rng, total);
        let parent = roulette_wheel(population.as_slice(), fitness.as_slice(), r);
        proof {
            let i = choose|i: int|
                wheel_stops_at(fitness@, r as int, i) && parent == population@[i];
            lemma_wheel_stops_once(fitness@, r as int, i, i);
            assert(population@[i] == parent);
            assert(can_be_drawn(parent, population@, fitness@));
        }
        parents.push(parent);
    }
    Ok(parents)
}

/// One child of the pool: two parents are picked from it, each with the
/// same chance for every member and each on a draw of its own; the child
/// takes each weight from the first parent or the second with even odds;
/// then, with probability `mutation`, one of its weights is nudged.
pub fn offspring<S: NormalSource>(
    pool: &Vec<GeneticAgent>,
    mutation: Ratio,
    rng: &mut SmallRng,
    source: &mut S,
) -> (child: GeneticAgent)
    requires
        pool@.len() > 0,
        mutation.wf(),
    ensures
        offspring_of(child, pool@, mutation),
{
    let first = match choose_one(pool.as_slice(), rng) {
        Some(parent) => parent,
        None => pool[0],
    };
    let second = match choose_one(pool.as_slice(), rng) {
        Some(parent) => parent,
        None => pool[0],
    };
    let mut child = first.breed(&second, Ratio { numerator: 1, denominator: 2 });
    if gen_ratio(rng, mutation.numerator, mutation.denominator) {
        let ghost crossed = child;
        child.nudge_random_weight(rng, source);
        proof {
            let (index, sample) = choose|index: int, sample: i64|
                nudged_at(child.weights, crossed.weights, index, sample);
            assert(bred_from(child, first, second, true, index));
        }
    } else {
        assert(bred_from(child, first, second, false, 0));
    }
    child
}

/// The next generation: `population_size` children of the pool, each bred
/// on its own.
pub fn next_generation<S: NormalSource>(
    pool: &Vec<GeneticAgent>,
    population_size: usize,
    mutation: Ratio,
    rng: &mut SmallRng,
    source: &mut S,
) -> (children: Vec<GeneticAgent>)
    requires
        pool@.len() > 0,
        mutation.wf(),
    ensures
        children@.len() == population_size,
        forall|k: int|
            0 <= k < children@.len() ==> offspring_of(
                #[trigger] children@[k],
                pool@,
                mutation,
            ),
{
    let mut children: Vec<GeneticAgent> = Vec::new();
    while children.len() < population_size
        invariant
            pool@.len() > 0,
            mutation.wf(),
            children@.len() <= population_size,
            forall|k: int|
                0 <= k < children@.len() ==> offspring_of(
                    #[trigger] children@[k],
                    pool@,
                    mutation,
                ),
        decreases population_size - children@.len(),
    {
        let child = offspring(pool, mutation, rng, source);
        children.push(child);
    }
    children
}

/// The fitness of every candidate, in order: each plays `eval_iterations`
/// games on `state`, and its fitness is the sum of its final scores.
pub fn evaluate_all(
    population: &Vec<GeneticAgent>,
    state: &mut TetrisState,
    eval_iterations: usize,
) -> (fitness: Vec<u64>)
    requires
        eval_iterations <= u32::MAX,
    ensures
        fitness@.len() == population@.len(),
        forall|i: int|
            0 <= i < fitness@.len() ==> is_fitness(
                population@[i].policy(),
                (#[trigger] fitness@[i]) as int,
                eval_iterations as int,
            ) && eval_iterations <= fitness@[i] <= eval_iterations * u32::MAX,
{
    let mut fitness: Vec<u64> = Vec::new();
    while fitness.len() < population.len()
        invariant
            eval_iterations <= u32::MAX,
            fitness@.len() <= population@.len(),
            forall|i: int|
                0 <= i < fitness@.len() ==> is_fitness(
                    population@[i].policy(),
                    (#[trigger] fitness@[i]) as int,
                    eval_iterations as int,
                ) && eval_iterations <= fitness@[i] <= eval_iterations * u32::MAX,
        decreases population@.len() - fitness@.len(),
    {
        let mut candidate = population[fitness.len()];
        let score: u64 = candidate.evaluate(state, eval_iterations);
        fitness.push(score);
    }
    fitness
}

impl GeneticAgent {
    /// A newly drawn population of `population_size` candidates.
    pub fn draw_population<S: NormalSource>(
        source: &mut S,
        population_size: usize,
    ) -> (population: Vec<GeneticAgent>)
        ensures
            drawn_population(population@, population_size as int),
    {
        let mut population: Vec<GeneticAgent> = Vec::new();
        while population.len() < population_size
            invariant
                population@.len() <= population_size,
                forall|k: int|
                    0 <= k < population@.len() ==> newly_drawn(#[trigger] population@[k]),
            decreases population_size - population@.len(),
        {
            let candidate = GeneticAgent::new(source);
            population.push(candidate);
        }
        population
    }

    /// Runs one generation: every candidate plays `eval_iterations` games on
    /// `state`, and the fittest is noted with its fitness. Unless this is
    /// the last generation, `selection_size` parents are then drawn in
    /// proportion to fitness and a new population of the same size is bred
    /// from them, each child nudged with probability
    /// `mutation_probability`. That fails with `NoFitness` if no candidate
    /// has scored, which is so if and only if no game was played: every
    /// game that is played scores. The last generation hands its population
    /// on as it is.
    pub fn generation<S: NormalSource>(
        population: Vec<GeneticAgent>,
        state: &mut TetrisState,
        rng: &mut SmallRng,
        source: &mut S,
        eval_iterations: usize,
        selection_size: usize,
        mutation_probability: Ratio,
        is_last: bool,
    ) -> (outcome: Generation)
        requires
            population@.len() > 0,
            eval_iterations <= u32::MAX,
            mutation_probability.wf(),
            !is_last ==> selection_size > 0,
        ensures
            exists|fitness: Seq<u64>, best: int| #[trigger]
                is_generation(
                    population@,
                    fitness,
                    best,
                    eval_iterations as int,
                    selection_size as int,
                    mutation_probability,
                    is_last,
                    outcome,
                ),
            !is_last ==> (outcome.next is Err <==> eval_iterations == 0),
    {
        let fitness = evaluate_all(&population, state, eval_iterations);
        let best: usize = fittest(fitness.as_slice());
        let best_score: u64 = fitness[best];
        let best_agent = population[best];
        let ghost before = population@;
        let next = if is_last {
            Ok(population)
        } else {
            proof {
                if eval_iterations == 0 {
                    lemma_no_shares(fitness@, fitness@.len() as int);
                } else {
                    assert(fitness@[0] >= 1);
                    lemma_share_sum_grows(fitness@, 1, fitness@.len() as int);
                    assert(share_sum(fitness@, 1) == share_sum(fitness@, 0) + fitness@[0]);
                }
            }
            match select(&population, &fitness, selection_size, rng) {
                Ok(pool) => {
                    let children = next_generation(
                        &pool,
                        population.len(),
                        mutation_probability,
                        rng,
                        source,
                    );
                    proof {
                        lemma_share_sum_grows(fitness@, 0, fitness@.len() as int);
                        assert(bred_through(
                            before,
                            fitness@,
                            pool@,
                            children@,
                            selection_size as int,
                            mutation_probability,
                        ));
                    }
                    Ok(children)
                },
                Err(error) => Err(error),
            }
        };
        let outcome = Generation { best_agent, best_score, next };
        proof {
            assert(is_generation(
                before,
                fitness@,
                best as int,
                eval_iterations as int,
                selection_size as int,
                mutation_probability,
                is_last,
                outcome,
            ));
        }
        outcome
    }

    /// Trains the given population for `num_generations` generations and
    /// returns the best candidate of the last one, its fitness, and the best
    /// fitness of every generation.
    ///
    /// In each generation every candidate plays `eval_iterations` games and
    /// the fittest is noted. After every generation but the last,
    /// `selection_size` parents are drawn in proportion to fitness and a new
    /// population of the same size is bred from them, each child nudged
    /// with probability `mutation_probability`. No candidate is carried
    /// over, so a later generation may do worse than an earlier one; what is
    /// returned is the best of the last generation all the same.
    ///
    /// Without generations nothing is played, and the first candidate is
    /// returned with a fitness of zero. A generation in which no candidate
    /// scores cannot breed, and ends the run with `NoFitness`; since every
    /// game that is played scores, that happens if and only if two or more
    /// generations are asked for with no game to a generation.
    pub fn evolve<S: NormalSource>(
        population: Vec<GeneticAgent>,
        source: &mut S,
        eval_iterations: usize,
        num_generations: usize,
        selection_size: usize,
        mutation_probability: Ratio,
    ) -> (outcome: Result<Training, TrainingError>)
        requires
            population@.len() > 0,
            eval_iterations <= u32::MAX,
            mutation_probability.wf(),
            num_generations >= 2 ==> selection_size > 0,
        ensures
            num_generations <= 1 ==> outcome is Ok,
            eval_iterations >= 1 ==> outcome is Ok,
            num_generations >= 2 && eval_iterations == 0 ==> outcome is Err,
            outcome matches Ok(training) ==> {
                &&& trained(
                    population@,
                    eval_iterations as int,
                    num_generations as int,
                    selection_size as int,
                    mutation_probability,
                    training,
                )
                &&& num_generations >= 1 ==> is_fitness(
                    training.best_agent.policy(),
                    training.best_score as int,
                    eval_iterations as int,
                )
            },
    {
        let ghost initial = population@;
        let ghost games = eval_iterations as int;
        let ghost pool_size = selection_size as int;
        let mut population = population;
        let mut rng = entropy_rng();
        let mut state = TetrisState::new();
        let mut best_score: u64 = 0;
        let mut best_agent = population[0];
        let mut history: Vec<u64> = Vec::new();
        let mut generation: usize = 0;
        let ghost bred: nat = 0;
        while generation < num_generations
            invariant
                0 <= generation <= num_generations,
                population@.len() > 0,
                eval_iterations <= u32::MAX,
                games == eval_iterations,
                pool_size == selection_size,
                mutation_probability.wf(),
                num_generations >= 2 ==> selection_size > 0,
                generation == 0 ==> best_score == 0 && best_agent == initial[0],
                history@.len() == generation,
                forall|g: int|
                    0 <= g < generation ==> is_best_in_generation(
                        initial,
                        g as nat,
                        games,
                        pool_size,
                        mutation_probability,
                        #[trigger] history@[g],
                    ) && games <= history@[g] <= games * u32::MAX,
                generation >= 1 ==> best_score == history@[generation - 1],
                descends(initial, population@, bred, games, pool_size, mutation_probability),
                generation < num_generations ==> bred == generation,
                generation == num_generations && generation >= 1 ==> {
                    &&& bred == generation - 1
                    &&& best_of(population@, games, best_agent, best_score)
                },
                generation >= 2 ==> eval_iterations > 0,
            decreases num_generations - generation,
        {
            let is_last = generation == num_generations - 1;
            let ghost before = population@;
            let outcome = GeneticAgent::generation(
                population,
                &mut state,
                &mut rng,
                source,
                eval_iterations,
                selection_size,
                mutation_probability,
                is_last,
            );
            let ghost (fitness, best) = choose|fitness: Seq<u64>, best: int| #[trigger]
                is_generation(
                    before,
                    fitness,
                    best,
                    games,
                    pool_size,
                    mutation_probability,
                    is_last,
                    outcome,
                );
            best_score = outcome.best_score;
            best_agent = outcome.best_agent;
            history.push(best_score);
            proof {
                assert(is_best_of(before, fitness, best, games, best_agent, best_score));
                assert(is_fitness(best_agent.policy(), fitness[best] as int, games));
                assert(best_of(before, games, best_agent, best_score));
                assert(bred == generation);
                assert(descends(initial, before, bred, games, pool_size, mutation_probability));
                assert(is_best_in_generation(
                    initial,
                    generation as nat,
                    games,
                    pool_size,
                    mutation_probability,
                    best_score,
                ));
            }
            population = match outcome.next {
                Ok(next) => next,
                Err(error) => {
                    return Err(error);
                },
            };
            proof {
                if !is_last {
                    assert(breeds(before, fitness, population@, pool_size, mutation_probability));
                    assert(follows(before, population@, games, pool_size, mutation_probability));
                    let pool = choose|pool: Seq<GeneticAgent>|
                        bred_through(
                            before,
                            fitness,
                            pool,
                            population@,
                            pool_size,
                            mutation_probability,
                        );
                    assert(population@.len() == before.len()) by {
                        assert(bred_through(
                            before,
                            fitness,
                            pool,
                            population@,
                            pool_size,
                            mutation_probability,
                        ));
                    }
                    assert(descends(
                        initial,
                        population@,
                        (bred + 1) as nat,
                        games,
                        pool_size,
                        mutation_probability,
                    ));
                    bred = bred + 1;
                }
            }
            generation += 1;
        }
        let training = Training { best_agent, best_score, history };
        proof {
            if num_generations >= 1 {
                assert(descends(
                    initial,
                    population@,
                    (num_generations - 1) as nat,
                    games,
                    pool_size,
                    mutation_probability,
                ));
                let (fitness, best) = choose|fitness: Seq<u64>, best: int|
                    is_best_of(population@, fitness, best, games, best_agent, best_score);
                assert(is_fitness(best_agent.policy(), fitness[best] as int, games));
                assert(best_of(population@, games, training.best_agent, training.best_score));
                assert(training.best_score == training.history@[num_generations - 1]);
            } else {
                assert(training.best_score == 0 && training.best_agent == initial[0]);
            }
            if num_generations == 1 {
                assert(population@ == initial);
                let (fitness, best) = choose|fitness: Seq<u64>, best: int|
                    is_best_of(initial, fitness, best, games, best_agent, best_score);
                assert(initial[best] == best_agent);
            }
            assert(training.history@.len() == num_generations);
            assert(trained(
                initial,
                games,
                num_generations as int,
                pool_size,
                mutation_probability,
                training,
            ));
        }
        Ok(training)
    }

    /// Trains a newly drawn population of `population_size` candidates, as
    /// `evolve` does, and returns the best candidate of the last generation.
    pub fn from_genetic<S: NormalSource>(
        source: &mut S,
        eval_iterations: usize,
        num_generations: usize,
        population_size: usize,
        selection_size: usize,
        mutation_probability: Ratio,
    ) -> (outcome: Result<Training, TrainingError>)
        requires
            population_size > 0,
            eval_iterations <= u32::MAX,
            mutation_probability.wf(),
            num_generations >= 2 ==> selection_size > 0,
        ensures
            num_generations <= 1 ==> outcome is Ok,
            eval_iterations >= 1 ==> outcome is Ok,
            num_generations >= 2 && eval_iterations == 0 ==> outcome is Err,
            outcome matches Ok(training) ==> {
                &&& exists|first: Seq<GeneticAgent>|
                    drawn_population(first, population_size as int) && #[trigger] trained(
                        first,
                        eval_iterations as int,
                        num_generations as int,
                        selection_size as int,
                        mutation_probability,
                        training,
                    )
                &&& num_generations >= 1 ==> is_fitness(
                    training.best_agent.policy(),
                    training.best_score as int,
                    eval_iterations as int,
                )
                &&& num_generations <= 1 ==> newly_drawn(training.best_agent)
            },
    {
        let population = GeneticAgent::draw_population(source, population_size);
        let ghost first = population@;
        let outcome = GeneticAgent::evolve(
            population,
            source,
            eval_iterations,
            num_generations,
            selection_size,
            mutation_probability,
        );
        proof {
            if outcome is Ok {
                let training = outcome->Ok_0;
                assert(trained(
                    first,
                    eval_iterations as int,
                    num_generations as int,
                    selection_size as int,
                    mutation_probability,
                    training,
                ));
                if num_generations == 0 {
                    assert(newly_drawn(first[0]));
                }
            }
        }
        outcome
    }

    /// Climbs by mutation alone, for `k` rounds: in each round the agent
    /// plays `n` games, its weights are noted if its fitness is above the
    /// best so far, and one of its weights is drawn anew. In the end the
    /// agent has the noted weights, or its first ones if no round did
    /// better than `best_score`. Returns the best fitness.
    pub fn train_mutation_only<S: NormalSource>(
        &mut self,
        source: &mut S,
        n: usize,
        k: usize,
        best_score: u64,
    ) -> (best: u64)
        requires
            n <= u32::MAX,
        ensures
            exists|rounds: Seq<(GeneticAgent, int)>| #[trigger]
                climbs_to(
                    *old(self),
                    best_score as int,
                    n as int,
                    k as int,
                    rounds,
                    *final(self),
                    best as int,
                ),
            best >= best_score,
            best == best_score ==> final(self).weights == old(self).weights,
            k == 0 ==> best == best_score,
    {
        let mut best: u64 = best_score;
        let mut best_weights = self.weights;
        let mut state = TetrisState::new();
        let mut rng = entropy_rng();
        let mut round: usize = 0;
        let ghost rounds = Seq::<(GeneticAgent, int)>::empty();
        while round < k
            invariant
                0 <= round <= k,
                n <= u32::MAX,
                rounds.len() == round,
                is_climb(*old(self), rounds, n as int),
                climbed(*old(self), best_score as int, rounds) == (
                    GeneticAgent { weights: best_weights },
                    best as int,
                ),
                round == 0 ==> *self == *old(self),
                round > 0 ==> redrawn(*self, rounds[round - 1].0),
                best >= best_score,
                    best == best_score ==> best_weights == old(self).weights,
                round == 0 ==> best == best_score,
            decreases k - round,
        {
            let mut player = *self;
            let score: u64 = player.evaluate(&mut state, n);
            proof {
                assert(is_fitness(self.policy(), score as int, n as int));
                let longer = rounds.push((*self, score as int));
                assert(longer.drop_last() =~= rounds);
                assert forall|i: int| 0 <= i < longer.len() implies {
                    let round = #[trigger] longer[i];
                    &&& is_fitness(round.0.policy(), round.1, n as int)
                    &&& i == 0 ==> round.0 == *old(self)
                    &&& i > 0 ==> redrawn(round.0, longer[i - 1].0)
                } by {
                    if i < rounds.len() {
                        assert(longer[i] == rounds[i]);
                    }
                }
                rounds = longer;
            }
            if score > best {
                best_weights = self.weights;
                best = score;
            }
            let ghost played = *self;
            self.mutate_random_weight(&mut rng, source);
            assert(redrawn(*self, played));
            round += 1;
        }
        self.weights = best_weights;
        proof {
            assert(*self == GeneticAgent { weights: best_weights });
            assert(climbs_to(
                *old(self),
                best_score as int,
                n as int,
                k as int,
                rounds,
                *self,
                best as int,
            ));
        }
        best
    }
}

} // verus!
