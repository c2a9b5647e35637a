//! Sources of moves: the capability that the match driver asks, and the bot
//! that plays a legal point at random.

use crate::protocol::Move;
use crate::rules::{legal_points, legal_points_of};
use goban::rules::game::Game;
use rand::rngs::StdRng;
use rand::seq::SliceRandom;
use rand::SeedableRng;
use vstd::prelude::*;

verus! {

/// A source of moves: an in-process strategy or a bridge to an engine.
pub trait Bot {
    /// Whether the bot, as it stands, may answer `game` with `m`. A bot
    /// that says nothing of its moves may answer with any.
    open spec fn may_play(&self, game: Game, m: Move) -> bool {
        true
    }

    /// The move of the side to play in `game`: one that the bot may answer
    /// with.
    fn play(&mut self, game: &Game) -> (m: Move)
        ensures
            old(self).may_play(*game, m),
    ;
}

/// A source of moves that may have none to offer, with a move to fall back
/// on.
pub trait DefaultingBot {
    /// Whether the bot, as it stands, may answer `game` with `offer` and
    /// stand as `after` then. A bot that says nothing of its moves may do
    /// anything.
    open spec fn may_offer(&self, after: &Self, game: Game, offer: Option<Move>) -> bool {
        true
    }

    /// Whether the bot, as it stands, may fall back on `m` in `game` and
    /// stand as `after` then.
    open spec fn may_default(&self, after: &Self, game: Game, m: Move) -> bool {
        true
    }

    /// The bot's own move, if it has one.
    fn play(&mut self, game: &Game) -> (offer: Option<Move>)
        ensures
            old(self).may_offer(final(self), *game, offer),
    ;

    /// The move played in place of a missing one.
    fn default_play(&mut self, game: &Game) -> (m: Move)
        ensures
            old(self).may_default(final(self), *game, m),
    ;
}

/// Whether a defaulting bot that stood as `before` may answer `game` with
/// `m` and stand as `after`: `m` is its own move, or it had none and then
/// fell back on `m`.
pub open spec fn may_play_or_default<D: DefaultingBot>(
    before: &D,
    after: &D,
    game: Game,
    m: Move,
) -> bool {
    ||| before.may_offer(after, game, Some(m))
    ||| exists|mid: D| #[trigger]
        before.may_offer(&mid, game, None) && mid.may_default(after, game, m)
}

/// The move of a defaulting bot: its own where it has one, else the one it
/// falls back on, which is asked for only then.
pub fn play_or_default<D: DefaultingBot>(bot: &mut D, game: &Game) -> (m: Move)
    ensures
        may_play_or_default(old(bot), final(bot), *game, m),
{
    match bot.play(game) {
        Some(chosen) => chosen,
        None => {
            let ghost mid = *bot;
            let fallback = bot.default_play(game);
            assert(old(bot).may_offer(&mid, *game, None) && mid.may_default(
                final(bot),
                *game,
                fallback,
            ));
            fallback
        },
    }
}

#[verifier::external_type_specification]
#[verifier::external_body]
pub struct ExStdRng(StdRng);

/// `StdRng::from_entropy`: a generator seeded by the system.
#[verifier::external_body]
pub(crate) fn fresh_rng() -> (rng: StdRng) {
    StdRng::from_entropy()
}

/// `StdRng::seed_from_u64`: a generator that repeats its numbers for the
/// same seed.
#[verifier::external_body]
pub(crate) fn seeded_rng(seed: u64) -> (rng: StdRng) {
    StdRng::seed_from_u64(seed)
}

/// `SliceRandom::choose`: one of the points, picked at random, or nothing
/// where there is none.
#[verifier::external_body]
fn choose_point(rng: &mut StdRng, points: &Vec<(u8, u8)>) -> (choice: Option<(u8, u8)>)
    ensures
        match choice {
            Some(point) => points@.contains(point),
            None => points@.len() == 0,
        },
{
    points.choose(rng).copied()
}

/// The move for a choice among the legal points: a play on the point that
/// was chosen, a pass where none was.
pub fn move_for(choice: Option<(u8, u8)>) -> (m: Move)
    ensures
        m == match choice {
            Some(point) => Move::Play(point.0, point.1),
            None => Move::Pass,
        },
{
    match choice {
        Some(point) => Move::Play(point.0, point.1),
        None => Move::Pass,
    }
}

/// A play on one of `legals`, picked at random; a pass exactly when there is
/// no legal point.
pub fn random_move(rng: &mut StdRng, legals: &Vec<(u8, u8)>) -> (m: Move)
    ensures
        match m {
            Move::Play(x, y) => legals@.contains((x, y)),
            Move::Pass => legals@.len() == 0,
        },
{
    move_for(choose_point(rng, legals))
}

/// Plays a legal point picked at random, and passes when there is none.
#[derive(Debug)]
pub struct RandomBot {
    rng: StdRng,
}

impl RandomBot {
    /// A bot whose choices differ from run to run.
    pub fn new() -> (bot: RandomBot) {
        RandomBot { rng: fresh_rng() }
    }

    /// A bot that makes the same choices whenever it is given the same seed.
    pub fn seeded(seed: u64) -> (bot: RandomBot) {
        RandomBot { rng: seeded_rng(seed) }
    }
}

/// Whether `m` is a move among `legals`: a play on one of the points, or a
/// pass where there is no point.
pub open spec fn among(legals: Seq<(u8, u8)>, m: Move) -> bool {
    match m {
        Move::Play(x, y) => legals.contains((x, y)),
        Move::Pass => legals.len() == 0,
    }
}

impl Bot for RandomBot {
    /// A play on a legal point of the game, or a pass where it has none.
    open spec fn may_play(&self, game: Game, m: Move) -> bool {
        among(legal_points_of(game), m)
    }

    fn play(&mut self, game: &Game) -> (m: Move) {
        let legals = legal_points(game);
        random_move(&mut self.rng, &legals)
    }
}

} // verus!
