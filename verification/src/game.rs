//! The match driver: one game between two bots, and a pairing of repeated
//! games with its tally.

use crate::bot::Bot;
use crate::protocol::Move;
use crate::rules::{
    board_dims, fresh_game, game_is_over, game_outcome, game_over, game_size, game_try_play,
    game_turn, is_on_board, japanese_rules, new_game, on_board, outcome_of, side_to_move,
    state_after, winner_in, winner_of,
};
use crate::stones::Color;
use goban::rules::game::Game;
use goban::rules::{EndGame, Rule};
use vstd::prelude::*;

verus! {

/// How a pairing is played.
#[derive(Copy, Clone, Debug)]
pub struct TournamentOptions {
    pub game_options: GameOptions,
    pub num_matches: usize,
}

/// How one game is played.
#[derive(Copy, Clone, Debug)]
pub struct GameOptions {
    pub rules: Rule,
    /// Height and width of the board.
    pub board_size: (u8, u8),
    /// The number of moves after which a game is stopped and scored.
    pub max_moves: usize,
}

impl Default for GameOptions {
    fn default() -> (options: GameOptions)
        ensures
            options.board_size == (19u8, 19u8),
            options.max_moves == 512,
    {
        GameOptions { rules: japanese_rules(), board_size: (19, 19), max_moves: 512 }
    }
}

/// The tally of a pairing.
#[derive(Copy, Clone, Debug)]
pub struct PairingResults {
    pub black_wins: usize,
    pub white_wins: usize,
    pub draws: usize,
}

impl Default for PairingResults {
    fn default() -> (results: PairingResults)
        ensures
            results.total() == 0,
            results.black_wins == 0,
            results.white_wins == 0,
            results.draws == 0,
    {
        PairingResults { black_wins: 0, white_wins: 0, draws: 0 }
    }
}

/// A share of the games played, as the count and the total it is taken of.
pub open spec fn share(count: usize, total: int) -> Option<(usize, usize)> {
    if 0 < total <= usize::MAX {
        Some((count, total as usize))
    } else {
        None
    }
}

impl PairingResults {
    /// The number of games counted.
    pub open spec fn total(&self) -> int {
        self.black_wins + self.white_wins + self.draws
    }

    /// The tally with one more game, won by `winner` or drawn.
    pub open spec fn with_game(self, winner: Option<Color>) -> PairingResults {
        match winner {
            Some(Color::Black) => PairingResults {
                black_wins: (self.black_wins + 1) as usize,
                ..self
            },
            Some(Color::White) => PairingResults {
                white_wins: (self.white_wins + 1) as usize,
                ..self
            },
            None => PairingResults { draws: (self.draws + 1) as usize, ..self },
        }
    }

    pub fn new() -> (results: PairingResults)
        ensures
            results.black_wins == 0,
            results.white_wins == 0,
            results.draws == 0,
    {
        PairingResults { black_wins: 0, white_wins: 0, draws: 0 }
    }

    pub fn total_games(&self) -> (total: usize)
        requires
            self.total() <= usize::MAX,
        ensures
            total == self.total(),
    {
        self.black_wins + self.white_wins + self.draws
    }

    /// Counts one more game.
    pub fn record(&mut self, winner: Option<Color>)
        requires
            old(self).total() < usize::MAX,
        ensures
            *final(self) == old(self).with_game(winner),
            final(self).total() == old(self).total() + 1,
    {
        match winner {
            Some(Color::Black) => {
                self.black_wins = self.black_wins + 1;
            },
            Some(Color::White) => {
                self.white_wins = self.white_wins + 1;
            },
            None => {
                self.draws = self.draws + 1;
            },
        }
    }

    /// Black's share of the games: its wins and the total, to be read as a
    /// quotient. There is none before the first game.
    pub fn percent_black_wins(&self) -> (percent: Option<(usize, usize)>)
        requires
            self.total() <= usize::MAX,
        ensures
            percent == share(self.black_wins, self.total()),
    {
        self.percent(self.black_wins)
    }

    /// White's share of the games.
    pub fn percent_white_wins(&self) -> (percent: Option<(usize, usize)>)
        requires
            self.total() <= usize::MAX,
        ensures
            percent == share(self.white_wins, self.total()),
    {
        self.percent(self.white_wins)
    }

    /// The share of drawn games.
    pub fn percent_draws(&self) -> (percent: Option<(usize, usize)>)
        requires
            self.total() <= usize::MAX,
        ensures
            percent == share(self.draws, self.total()),
    {
        self.percent(self.draws)
    }

    fn percent(&self, value: usize) -> (percent: Option<(usize, usize)>)
        requires
            self.total() <= usize::MAX,
        ensures
            percent == share(value, self.total()),
    {
        let total = self.total_games();
        if total > 0 {
            Some((value, total))
        } else {
            None
        }
    }
}

/// The tally of a run of games, given by their winners in order.
pub open spec fn tally(winners: Seq<Option<Color>>) -> PairingResults
    decreases winners.len(),
{
    if winners.len() == 0 {
        PairingResults { black_wins: 0, white_wins: 0, draws: 0 }
    } else {
        tally(winners.drop_last()).with_game(winners.last())
    }
}

/// The counts of a tally sum to the number of games, and each count only
/// grows with a further game.
pub proof fn lemma_tally_total(winners: Seq<Option<Color>>)
    requires
        winners.len() <= usize::MAX,
    ensures
        tally(winners).total() == winners.len(),
        winners.len() > 0 ==> {
            &&& tally(winners.drop_last()).black_wins <= tally(winners).black_wins
            &&& tally(winners.drop_last()).white_wins <= tally(winners).white_wins
            &&& tally(winners.drop_last()).draws <= tally(winners).draws
        },
    decreases winners.len(),
{
    if winners.len() > 0 {
        lemma_tally_total(winners.drop_last());
    }
}

/// The game after one turn in which `m` was answered: a move on the board
/// goes to the engine, a play off the board leaves the game as it was.
pub open spec fn after_turn(game: Game, m: Move) -> Game {
    if on_board(m, board_dims(game)) {
        state_after(game, m)
    } else {
        game
    }
}

/// The game after the turns in which `ms` were answered, in order.
pub open spec fn after_turns(game: Game, ms: Seq<Move>) -> Game
    decreases ms.len(),
{
    if ms.len() == 0 {
        game
    } else {
        after_turn(after_turns(game, ms.drop_last()), ms.last())
    }
}

/// Whether turn `i` of a run of turns was played as the driver plays it. The
/// game was not over before it; the side that held the turn, as it stood
/// then, may answer with the move; and the other side was not asked.
/// `blacks[i]` and `whites[i]` are the two bots as they stood before turn
/// `i`.
pub open spec fn turn_played<B: Bot, W: Bot>(
    start: Game,
    ms: Seq<Move>,
    blacks: Seq<B>,
    whites: Seq<W>,
    i: int,
) -> bool {
    let before = after_turns(start, ms.take(i));
    &&& !game_over(before)
    &&& if side_to_move(before) == Color::Black {
        blacks[i].may_play(before, ms[i]) && whites[i + 1] == whites[i]
    } else {
        whites[i].may_play(before, ms[i]) && blacks[i + 1] == blacks[i]
    }
}

/// Whether `ms` is a run of turns played from `start`.
pub open spec fn turns_played<B: Bot, W: Bot>(
    start: Game,
    ms: Seq<Move>,
    blacks: Seq<B>,
    whites: Seq<W>,
) -> bool {
    &&& blacks.len() == ms.len() + 1
    &&& whites.len() == ms.len() + 1
    &&& forall|i: int| 0 <= i < ms.len() ==> #[trigger] turn_played(start, ms, blacks, whites, i)
}

/// Whether playing on from `start` for `moves` turns, with the bots as
/// `black` and `white` stood, may leave the game as `end` and the bots as
/// `black_after` and `white_after`.
pub open spec fn plays_out<B: Bot, W: Bot>(
    start: Game,
    black: B,
    white: W,
    end: Game,
    black_after: B,
    white_after: W,
    moves: int,
) -> bool {
    exists|ms: Seq<Move>, blacks: Seq<B>, whites: Seq<W>|
        {
            &&& #[trigger] turns_played(start, ms, blacks, whites)
            &&& ms.len() == moves
            &&& blacks[0] == black
            &&& whites[0] == white
            &&& blacks[moves] == black_after
            &&& whites[moves] == white_after
            &&& end == after_turns(start, ms)
        }
}

/// Whether a game that stopped as `end` may have `outcome`: the engine's own
/// where the game is over, else one that the scorer gives for `end`.
pub open spec fn ends_with<S: Fn(&Game) -> EndGame>(end: Game, scorer: &S, outcome: EndGame) -> bool {
    if game_over(end) {
        outcome_of(end) == Some(outcome)
    } else {
        call_ensures(*scorer, (&end,), outcome)
    }
}

/// Whether one game under `options` may have `outcome`: play went on from
/// the empty board until the game was over or `max_moves` turns were used
/// up, and the outcome is that of the game where play stopped.
pub open spec fn may_give<B: Bot, W: Bot, S: Fn(&Game) -> EndGame>(
    options: GameOptions,
    black: B,
    white: W,
    black_after: B,
    white_after: W,
    scorer: &S,
    outcome: EndGame,
) -> bool {
    exists|end: Game, moves: int|
        {
            &&& #[trigger] plays_out(
                fresh_game(options.board_size, options.rules),
                black,
                white,
                end,
                black_after,
                white_after,
                moves,
            )
            &&& moves <= options.max_moves
            &&& moves < options.max_moves ==> game_over(end)
            &&& ends_with(end, scorer, outcome)
        }
}

/// Whether game `i` of a pairing was played as the driver plays it:
/// `blacks[i]` and `whites[i]` are the bots as they stood before it.
pub open spec fn game_played<B: Bot, W: Bot, S: Fn(&Game) -> EndGame>(
    options: GameOptions,
    outcomes: Seq<EndGame>,
    blacks: Seq<B>,
    whites: Seq<W>,
    scorer: &S,
    i: int,
) -> bool {
    may_give(options, blacks[i], whites[i], blacks[i + 1], whites[i + 1], scorer, outcomes[i])
}

/// The winners of a run of games, in order.
pub open spec fn winners(outcomes: Seq<EndGame>) -> Seq<Option<Color>> {
    outcomes.map_values(|o: EndGame| winner_in(o))
}

/// Whether the games with these outcomes were played one after the other as
/// the driver plays them.
pub open spec fn games_played<B: Bot, W: Bot, S: Fn(&Game) -> EndGame>(
    options: GameOptions,
    outcomes: Seq<EndGame>,
    blacks: Seq<B>,
    whites: Seq<W>,
    scorer: &S,
) -> bool {
    &&& blacks.len() == outcomes.len() + 1
    &&& whites.len() == outcomes.len() + 1
    &&& forall|i: int|
        0 <= i < outcomes.len() ==> #[trigger] game_played(
            options,
            outcomes,
            blacks,
            whites,
            scorer,
            i,
        )
}

/// Whether a pairing under `options` may give `results`: as many games as
/// asked for were played one after the other, Black always by the first bot,
/// and the results are the tally of their winners.
pub open spec fn pairing_gives<B: Bot, W: Bot, S: Fn(&Game) -> EndGame>(
    options: TournamentOptions,
    black: B,
    white: W,
    black_after: B,
    white_after: W,
    scorer: &S,
    results: PairingResults,
) -> bool {
    exists|outcomes: Seq<EndGame>, blacks: Seq<B>, whites: Seq<W>|
        {
            &&& #[trigger] games_played(options.game_options, outcomes, blacks, whites, scorer)
            &&& outcomes.len() == options.num_matches
            &&& blacks[0] == black
            &&& whites[0] == white
            &&& blacks[outcomes.len() as int] == black_after
            &&& whites[outcomes.len() as int] == white_after
            &&& results == tally(winners(outcomes))
        }
}

proof fn lemma_turn_kept<B: Bot, W: Bot>(
    start: Game,
    ms: Seq<Move>,
    blacks: Seq<B>,
    whites: Seq<W>,
    m: Move,
    black: B,
    white: W,
    i: int,
)
    requires
        0 <= i < ms.len(),
        blacks.len() == ms.len() + 1,
        whites.len() == ms.len() + 1,
        turn_played(start, ms, blacks, whites, i),
    ensures
        turn_played(start, ms.push(m), blacks.push(black), whites.push(white), i),
{
    assert(ms.push(m).take(i) =~= ms.take(i));
}

/// Who moves next: the side that holds the turn, while the game is not over
/// and the cap is not reached; nobody after that.
pub open spec fn mover(over: bool, moves: usize, max_moves: usize, turn: Color) -> Option<Color> {
    if !over && moves < max_moves {
        Some(turn)
    } else {
        None
    }
}

pub fn next_mover(over: bool, moves: usize, max_moves: usize, turn: Color) -> (side: Option<Color>)
    ensures
        side == mover(over, moves, max_moves, turn),
{
    if !over && moves < max_moves {
        Some(turn)
    } else {
        None
    }
}

/// Plays a game on from where it stands, for `max_moves` moves at most, and
/// gives the number of moves asked for.
///
/// The side that holds the turn is asked for a move, the move is handed to
/// the rules engine, and the turn is used up whether or not the engine took
/// it; a play off the board is not handed on. Play stops before the cap only
/// where the game is over.
pub fn play_out<B: Bot, W: Bot>(
    game: &mut Game,
    max_moves: usize,
    black: &mut B,
    white: &mut W,
) -> (moves: usize)
    ensures
        moves <= max_moves,
        moves < max_moves ==> game_over(*final(game)),
        plays_out(
            *old(game),
            *old(black),
            *old(white),
            *final(game),
            *final(black),
            *final(white),
            moves as int,
        ),
        board_dims(*final(game)) == board_dims(*old(game)),
{
    let dims = game_size(game);
    let ghost start = *game;
    let ghost mut ms: Seq<Move> = Seq::empty();
    let ghost mut blacks: Seq<B> = seq![*black];
    let ghost mut whites: Seq<W> = seq![*white];
    let mut moves: usize = 0;
    loop
        invariant
            moves <= max_moves,
            start == *old(game),
            dims == board_dims(*game),
            board_dims(*game) == board_dims(start),
            turns_played(start, ms, blacks, whites),
            ms.len() == moves,
            blacks[0] == *old(black),
            whites[0] == *old(white),
            blacks[moves as int] == *black,
            whites[moves as int] == *white,
            *game == after_turns(start, ms),
        ensures
            moves < max_moves ==> game_over(*game),
        decreases max_moves - moves,
    {
        let ghost before = *game;
        let side = next_mover(game_is_over(game), moves, max_moves, game_turn(game));
        let bot_move = match side {
            Some(Color::Black) => black.play(game),
            Some(Color::White) => white.play(game),
            None => {
                break ;
            },
        };
        if is_on_board(bot_move, dims) {
            let _ = game_try_play(game, bot_move);
        }
        proof {
            let ms_next = ms.push(bot_move);
            let blacks_next = blacks.push(*black);
            let whites_next = whites.push(*white);
            assert(ms_next.drop_last() =~= ms);
            assert(ms_next.take(moves as int) =~= ms);
            assert(*game == after_turn(before, bot_move));
            assert forall|i: int| 0 <= i < ms_next.len() implies #[trigger] turn_played(
                start,
                ms_next,
                blacks_next,
                whites_next,
                i,
            ) by {
                if i < ms.len() {
                    assert(turn_played(start, ms, blacks, whites, i));
                    lemma_turn_kept(start, ms, blacks, whites, bot_move, *black, *white, i);
                }
            }
            ms = ms_next;
            blacks = blacks_next;
            whites = whites_next;
        }
        moves = moves + 1;
    }
    moves
}

/// Plays one game on a fresh board: `play_out` from the first move. A game
/// that is over has the engine's outcome; one that was stopped at the cap has
/// the outcome that `scorer` gives for the game as it stands then.
pub fn play_game<B: Bot, W: Bot, S: Fn(&Game) -> EndGame>(
    options: &GameOptions,
    black: &mut B,
    white: &mut W,
    scorer: &S,
) -> (outcome: EndGame)
    requires
        options.board_size.0 <= 19,
        options.board_size.1 <= 19,
        forall|g: &Game| call_requires(*scorer, (g,)),
    ensures
        may_give(
            *options,
            *old(black),
            *old(white),
            *final(black),
            *final(white),
            scorer,
            outcome,
        ),
{
    let mut game = new_game(options.board_size, options.rules);
    let moves = play_out(&mut game, options.max_moves, black, white);
    let outcome = match game_outcome(&game) {
        Some(outcome) => outcome,
        None => scorer(&game),
    };
    assert(plays_out(
        fresh_game(options.board_size, options.rules),
        *old(black),
        *old(white),
        game,
        *black,
        *white,
        moves as int,
    ) && ends_with(game, scorer, outcome));
    outcome
}

/// Plays `num_matches` games between the same two bots, the first always as
/// Black, and counts each game's winner, or a draw where it has none.
pub fn play_pairing<B: Bot, W: Bot, S: Fn(&Game) -> EndGame>(
    options: &TournamentOptions,
    black: &mut B,
    white: &mut W,
    scorer: &S,
) -> (results: PairingResults)
    requires
        options.game_options.board_size.0 <= 19,
        options.game_options.board_size.1 <= 19,
        forall|g: &Game| call_requires(*scorer, (g,)),
    ensures
        results.total() == options.num_matches,
        pairing_gives(
            *options,
            *old(black),
            *old(white),
            *final(black),
            *final(white),
            scorer,
            results,
        ),
{
    let mut results = PairingResults::new();
    let mut played: usize = 0;
    let ghost mut outcomes: Seq<EndGame> = Seq::empty();
    let ghost mut blacks: Seq<B> = seq![*black];
    let ghost mut whites: Seq<W> = seq![*white];
    while played < options.num_matches
        invariant
            played <= options.num_matches,
            results.total() == played,
            options.game_options.board_size.0 <= 19,
            options.game_options.board_size.1 <= 19,
            forall|g: &Game| call_requires(*scorer, (g,)),
            outcomes.len() == played,
            games_played(options.game_options, outcomes, blacks, whites, scorer),
            blacks[0] == *old(black),
            whites[0] == *old(white),
            blacks[played as int] == *black,
            whites[played as int] == *white,
            results == tally(winners(outcomes)),
        decreases options.num_matches - played,
    {
        let outcome = play_game(&options.game_options, black, white, scorer);
        results.record(winner_of(&outcome));
        proof {
            let outcomes_next = outcomes.push(outcome);
            let blacks_next = blacks.push(*black);
            let whites_next = whites.push(*white);
            assert(winners(outcomes_next).drop_last() =~= winners(outcomes));
            assert(winners(outcomes_next).last() == winner_in(outcome));
            assert forall|i: int| 0 <= i < outcomes_next.len() implies #[trigger] game_played(
                options.game_options,
                outcomes_next,
                blacks_next,
                whites_next,
                scorer,
                i,
            ) by {
                if i < outcomes.len() {
                    assert(game_played(options.game_options, outcomes, blacks, whites, scorer, i));
                }
            }
            outcomes = outcomes_next;
            blacks = blacks_next;
            whites = whites_next;
        }
        played = played + 1;
    }
    results
}

} // verus!
