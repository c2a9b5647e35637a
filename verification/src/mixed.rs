//! A bot that hands each move to one of several bots, picked at random in
//! proportion to their weights.

use crate::bot::{fresh_rng, seeded_rng, Bot};
use crate::protocol::Move;
use goban::rules::game::Game;
use rand::rngs::StdRng;
use rand::Rng;
use vstd::prelude::*;

verus! {

/// Why a set of bots and weights was turned down.
#[derive(Clone, Copy, Debug, PartialEq, Eq)]
pub enum ConfigError {
    /// Fewer than two bots.
    TooFewBots,
    /// Not one weight for each bot.
    WeightCountMismatch,
    /// A weight of zero.
    NonPositiveWeight,
    /// The weights sum to more than a bound can hold.
    WeightOverflow,
}

/// The sum of the first `n` weights.
pub open spec fn prefix_sum(weights: Seq<u32>, n: int) -> int
    decreases n,
{
    if n <= 0 {
        0
    } else {
        prefix_sum(weights, n - 1) + weights[n - 1]
    }
}

/// The verdict on a set of `bots` bots with these weights: the first fault
/// found, or none.
pub open spec fn config_fault(bots: int, weights: Seq<u32>) -> Option<ConfigError> {
    if bots < 2 {
        Some(ConfigError::TooFewBots)
    } else if weights.len() != bots {
        Some(ConfigError::WeightCountMismatch)
    } else if exists|i: int| 0 <= i < weights.len() && weights[i] == 0 {
        Some(ConfigError::NonPositiveWeight)
    } else if prefix_sum(weights, weights.len() as int) > u64::MAX {
        Some(ConfigError::WeightOverflow)
    } else {
        None
    }
}

/// Whether `bounds` are the running sums of positive weights: they rise
/// strictly from above zero.
pub open spec fn rising(bounds: Seq<u64>) -> bool {
    &&& bounds.len() > 0
    &&& bounds[0] > 0
    &&& forall|i: int, j: int| 0 <= i < j < bounds.len() ==> bounds[i] < bounds[j]
}

/// The first index whose bound lies above the draw.
pub open spec fn chosen(bounds: Seq<u64>, draw: u64, i: int) -> bool {
    &&& 0 <= i < bounds.len()
    &&& draw < bounds[i]
    &&& forall|k: int| 0 <= k < i ==> bounds[k] <= draw
}

proof fn lemma_prefix_sum_monotone(weights: Seq<u32>, a: int, b: int)
    requires
        0 <= a <= b <= weights.len(),
    ensures
        prefix_sum(weights, a) <= prefix_sum(weights, b),
    decreases b - a,
{
    if a < b {
        lemma_prefix_sum_monotone(weights, a, b - 1);
    }
}

/// The running sums of the weights, or the fault of the configuration.
pub fn cumulative_bounds(bots: usize, weights: &Vec<u32>) -> (bounds: Result<Vec<u64>, ConfigError>)
    ensures
        match bounds {
            Ok(b) => {
                &&& config_fault(bots as int, weights@) is None
                &&& b.len() == weights.len()
                &&& forall|i: int| 0 <= i < b.len() ==> b[i] == prefix_sum(weights@, i + 1)
                &&& rising(b@)
            },
            Err(e) => config_fault(bots as int, weights@) == Some(e),
        },
{
    if bots < 2 {
        return Err(ConfigError::TooFewBots);
    }
    if weights.len() != bots {
        return Err(ConfigError::WeightCountMismatch);
    }
    let mut k: usize = 0;
    while k < weights.len()
        invariant
            bots >= 2,
            weights.len() == bots,
            k <= weights.len(),
            forall|i: int| 0 <= i < k ==> weights[i] != 0,
        decreases weights.len() - k,
    {
        if weights[k] == 0 {
            assert(weights@[k as int] == 0);
            return Err(ConfigError::NonPositiveWeight);
        }
        k = k + 1;
    }
    let mut bounds: Vec<u64> = Vec::new();
    let mut sum: u64 = 0;
    let mut i: usize = 0;
    while i < weights.len()
        invariant
            bots >= 2,
            weights.len() == bots,
            i <= weights.len(),
            bounds.len() == i,
            sum == prefix_sum(weights@, i as int),
            forall|j: int| 0 <= j < weights.len() ==> weights[j] != 0,
            forall|j: int| 0 <= j < i ==> bounds[j] == prefix_sum(weights@, j + 1),
            forall|a: int, b: int| 0 <= a < b < i ==> bounds[a] < bounds[b],
            i > 0 ==> bounds[0] > 0,
        decreases weights.len() - i,
    {
        let w: u64 = weights[i] as u64;
        if w > u64::MAX - sum {
            proof {
                assert(prefix_sum(weights@, i + 1) == sum + w);
                lemma_prefix_sum_monotone(weights@, i + 1, weights.len() as int);
            }
            return Err(ConfigError::WeightOverflow);
        }
        let ghost before = bounds@;
        sum = sum + w;
        bounds.push(sum);
        proof {
            assert(prefix_sum(weights@, i + 1) == sum);
            assert forall|a: int, b: int| 0 <= a < b < i + 1 implies bounds[a] < bounds[b] by {
                if b == i {
                    assert(before[i - 1] == prefix_sum(weights@, i as int));
                    if a < i - 1 {
                        assert(before[a] < before[i - 1]);
                    }
                } else {
                    assert(before[a] < before[b]);
                }
            }
        }
        i = i + 1;
    }
    Ok(bounds)
}

/// The index that a draw selects: the first whose bound lies above it.
pub fn select(bounds: &Vec<u64>, draw: u64) -> (index: usize)
    requires
        rising(bounds@),
        draw < bounds[bounds.len() - 1],
    ensures
        chosen(bounds@, draw, index as int),
{
    let mut i: usize = 0;
    while draw >= bounds[i]
        invariant
            i < bounds.len(),
            draw < bounds[bounds.len() - 1],
            forall|k: int| 0 <= k < i ==> bounds[k] <= draw,
        decreases bounds.len() - i,
    {
        i = i + 1;
    }
    i
}

/// A draw selects one index and no other.
pub proof fn lemma_selection_unique(bounds: Seq<u64>, draw: u64, i: int, j: int)
    requires
        chosen(bounds, draw, i),
        chosen(bounds, draw, j),
    ensures
        i == j,
{
}

/// `Rng::gen_range` over the range from 0 up to `limit`: a number below the
/// limit. An empty range stops the program.
#[verifier::external_body]
fn draw_below(rng: &mut StdRng, limit: u64) -> (draw: u64)
    requires
        limit > 0,
    ensures
        draw < limit,
{
    rng.gen_range(0..limit)
}

/// Plays each move through one of its bots, picked with a chance in
/// proportion to the bot's weight.
pub struct MixedBot {
    mix: Mix,
    rng: StdRng,
}

/// The bots of a mix, each with the running sum of the weights up to it.
struct Mix {
    bots: Vec<Box<dyn Bot>>,
    weight_bounds: Vec<u64>,
}

impl Mix {
    #[verifier::type_invariant]
    closed spec fn wf(&self) -> bool {
        &&& self.bots.len() == self.weight_bounds.len()
        &&& rising(self.weight_bounds@)
    }
}

impl MixedBot {
    /// One bound for each bot, rising from above zero.
    pub closed spec fn wf(&self) -> bool {
        self.mix.wf()
    }

    /// The running sums of the weights.
    pub closed spec fn bounds(&self) -> Seq<u64> {
        self.mix.weight_bounds@
    }

    /// The bots of the mix, in order.
    pub closed spec fn bots(&self) -> Seq<Box<dyn Bot>> {
        self.mix.bots@
    }

    /// A mix of the bots with equal weights.
    pub fn new(bots: Vec<Box<dyn Bot>>) -> (made: Result<Self, ConfigError>)
        ensures
            match made {
                Ok(bot) => bots.len() >= 2 && bot.wf() && bot.bots() == bots@ && bot.bounds().len()
                    == bots.len()
                    && forall|i: int| 0 <= i < bots.len() ==> bot.bounds()[i] == i + 1,
                Err(e) => e == ConfigError::TooFewBots && bots.len() < 2,
            },
    {
        let mut weights: Vec<u32> = Vec::new();
        let mut i: usize = 0;
        while i < bots.len()
            invariant
                i <= bots.len(),
                weights.len() == i,
                forall|j: int| 0 <= j < i ==> weights[j] == 1,
                prefix_sum(weights@, i as int) == i,
            decreases bots.len() - i,
        {
            proof {
                lemma_prefix_sum_same(weights@, weights@.push(1u32), i as int);
            }
            weights.push(1);
            i = i + 1;
        }
        proof {
            assert forall|k: int| 0 <= k <= weights.len() implies prefix_sum(weights@, k) == k by {
                lemma_prefix_sum_ones(weights@, k);
            }
        }
        MixedBot::new_weighted(bots, weights)
    }

    /// A mix of the bots with the given weights, one for each bot. It is
    /// turned down with fewer than two bots, with a number of weights other
    /// than that of the bots, with a weight of zero, and where the sum of the
    /// weights does not fit.
    pub fn new_weighted(bots: Vec<Box<dyn Bot>>, weights: Vec<u32>) -> (made: Result<Self, ConfigError>)
        ensures
            match made {
                Ok(bot) => {
                    &&& config_fault(bots.len() as int, weights@) is None
                    &&& bot.wf()
                    &&& bot.bots() == bots@
                    &&& bot.bounds().len() == weights.len()
                    &&& forall|i: int|
                        0 <= i < weights.len() ==> bot.bounds()[i] == prefix_sum(weights@, i + 1)
                },
                Err(e) => config_fault(bots.len() as int, weights@) == Some(e),
            },
    {
        match cumulative_bounds(bots.len(), &weights) {
            Ok(weight_bounds) => Ok(MixedBot { mix: Mix { bots, weight_bounds }, rng: fresh_rng() }),
            Err(e) => Err(e),
        }
    }

    /// The same mix, making the same draws whenever it is given the same
    /// seed.
    pub fn seeded(self, seed: u64) -> (bot: Self)
        ensures
            bot.wf(),
            bot.bounds() == self.bounds(),
            bot.bots() == self.bots(),
    {
        proof {
            use_type_invariant(&self.mix);
        }
        MixedBot { mix: self.mix, rng: seeded_rng(seed) }
    }

    /// The running sums of the weights, one for each bot.
    pub fn weight_bounds(&self) -> (bounds: &Vec<u64>)
        ensures
            bounds@ == self.bounds(),
    {
        &self.mix.weight_bounds
    }

    /// The index of the bot that a draw below the last bound selects.
    pub fn pick(&self, draw: u64) -> (index: usize)
        requires
            self.wf(),
            draw < self.bounds()[self.bounds().len() - 1],
        ensures
            chosen(self.bounds(), draw, index as int),
    {
        select(&self.mix.weight_bounds, draw)
    }

}

impl MixedBot {
    /// The move of the bot that `draw` selects: the first whose bound lies
    /// above the draw. That bot alone is asked, and no other changes.
    pub fn play_drawn(&mut self, draw: u64, game: &Game) -> (m: Move)
        requires
            old(self).bounds().len() > 0,
            draw < old(self).bounds().last(),
        ensures
            final(self).bounds() == old(self).bounds(),
            final(self).bots().len() == old(self).bots().len(),
            forall|i: int|
                chosen(old(self).bounds(), draw, i) ==> {
                    &&& i < old(self).bots().len()
                    &&& (#[trigger] old(self).bots()[i]).may_play(*game, m)
                    &&& forall|k: int|
                        0 <= k < old(self).bots().len() && k != i ==> final(self).bots()[k] == old(
                            self,
                        ).bots()[k]
                },
    {
        proof {
            use_type_invariant(&self.mix);
        }
        let index = select(&self.mix.weight_bounds, draw);
        let m = self.mix.bots[index].play(game);
        proof {
            assert forall|i: int| chosen(old(self).bounds(), draw, i) implies i == index by {
                lemma_selection_unique(old(self).bounds(), draw, i, index as int);
            }
        }
        m
    }
}

impl Bot for MixedBot {
    /// A move that one of the bots of the mix may answer with.
    open spec fn may_play(&self, game: Game, m: Move) -> bool {
        exists|i: int| 0 <= i < self.bots().len() && (#[trigger] self.bots()[i]).may_play(game, m)
    }

    /// The move of the bot that a fresh draw selects.
    fn play(&mut self, game: &Game) -> (m: Move) {
        proof {
            use_type_invariant(&self.mix);
        }
        let total = self.mix.weight_bounds[self.mix.weight_bounds.len() - 1];
        let draw = draw_below(&mut self.rng, total);
        let ghost index = choose|i: int| chosen(self.bounds(), draw, i);
        proof {
            lemma_selection_exists(self.bounds(), draw);
        }
        let m = self.play_drawn(draw, game);
        proof {
            assert(old(self).bots()[index].may_play(*game, m));
        }
        m
    }
}

/// A draw below the last of rising bounds selects some index.
pub proof fn lemma_selection_exists(bounds: Seq<u64>, draw: u64)
    requires
        rising(bounds),
        draw < bounds.last(),
    ensures
        exists|i: int| chosen(bounds, draw, i),
    decreases bounds.len(),
{
    if bounds.len() == 1 || bounds[bounds.len() - 2] <= draw {
        assert(chosen(bounds, draw, bounds.len() - 1)) by {
            assert forall|k: int| 0 <= k < bounds.len() - 1 implies bounds[k] <= draw by {
                if k < bounds.len() - 2 {
                    assert(bounds[k] < bounds[bounds.len() - 2]);
                }
            }
        }
    } else {
        let head = bounds.drop_last();
        assert(rising(head));
        lemma_selection_exists(head, draw);
        let i = choose|i: int| chosen(head, draw, i);
        assert(head[i] == bounds[i]);
        assert forall|k: int| 0 <= k < i implies bounds[k] <= draw by {
            assert(head[k] == bounds[k]);
        }
        assert(chosen(bounds, draw, i));
    }
}

proof fn lemma_prefix_sum_same(a: Seq<u32>, b: Seq<u32>, n: int)
    requires
        0 <= n <= a.len(),
        n <= b.len(),
        forall|i: int| 0 <= i < n ==> a[i] == b[i],
    ensures
        prefix_sum(a, n) == prefix_sum(b, n),
    decreases n,
{
    if n > 0 {
        lemma_prefix_sum_same(a, b, n - 1);
    }
}

proof fn lemma_prefix_sum_ones(weights: Seq<u32>, n: int)
    requires
        0 <= n <= weights.len(),
        forall|i: int| 0 <= i < weights.len() ==> weights[i] == 1,
    ensures
        prefix_sum(weights, n) == n,
    decreases n,
{
    if n > 0 {
        lemma_prefix_sum_ones(weights, n - 1);
    }
}

} // verus!
