//! The rules engine as the match driver and the bots see it: a game that is
//! carried through verified code and worked on by the engine alone.

use crate::protocol::Move;
use crate::stones::{board_stones, Color, Stone};
use goban::pieces::goban::Goban;
use goban::rules::game::Game;
use goban::rules::{EndGame, Rule};
use vstd::prelude::*;

verus! {

#[verifier::external_type_specification]
#[verifier::external_body]
pub struct ExGame(Game);

#[verifier::external_type_specification]
#[verifier::external_body]
pub struct ExRule(Rule);

#[verifier::external_type_specification]
#[verifier::external_body]
pub struct ExEndGame(EndGame);

/// Height and width of the board that a game was made with.
pub uninterp spec fn board_dims(game: Game) -> (u8, u8);

/// The stones on the board of a game, row by row.
pub uninterp spec fn stones_now(game: Game) -> Seq<Stone>;

/// The stones of the board that the history of a game lists last; none
/// where the history is empty.
pub uninterp spec fn stones_before(game: Game) -> Option<Seq<Stone>>;

/// The points that the side to move may play in a game.
pub uninterp spec fn legal_points_of(game: Game) -> Seq<(u8, u8)>;

/// The empty game that the engine makes for a board of these dimensions
/// under these rules.
pub uninterp spec fn fresh_game(dims: (u8, u8), rules: Rule) -> Game;

/// The game after a move was handed to the engine: the game with the move
/// played where the engine took it, and the game as it was where it did not.
pub uninterp spec fn state_after(game: Game, m: Move) -> Game;

/// How a game ended, as the engine gives it; nothing while it goes on.
pub uninterp spec fn outcome_of(game: Game) -> Option<EndGame>;

/// The side that an outcome names as the winner; none for a draw.
pub uninterp spec fn winner_in(outcome: EndGame) -> Option<Color>;

/// Whether a game has ended.
pub uninterp spec fn game_over(game: Game) -> bool;

/// The side to move in a game.
pub uninterp spec fn side_to_move(game: Game) -> Color;

/// The komi of a game, as the text that the number is printed with.
pub uninterp spec fn komi_of(game: Game) -> Seq<char>;

/// Whether a move can be handed to the engine for a board of these
/// dimensions: a pass always, a play where its point is on the board.
pub open spec fn on_board(m: Move, dims: (u8, u8)) -> bool {
    match m {
        Move::Play(x, y) => x < dims.0 && y < dims.1,
        Move::Pass => true,
    }
}

pub fn is_on_board(m: Move, dims: (u8, u8)) -> (b: bool)
    ensures
        b == on_board(m, dims),
{
    match m {
        Move::Play(x, y) => x < dims.0 && y < dims.1,
        Move::Pass => true,
    }
}

/// The rule set `goban::rules::JAPANESE`.
#[verifier::external_body]
pub(crate) fn japanese_rules() -> (rules: Rule) {
    goban::rules::JAPANESE
}

/// `Game::builder`, with `size`, `rule` and `build`: an empty game on a
/// board of the given dimensions. The engine holds boards up to 19 by 19 and
/// stops the program on a larger one.
#[verifier::external_body]
pub(crate) fn new_game(dims: (u8, u8), rules: Rule) -> (game: Game)
    requires
        dims.0 <= 19,
        dims.1 <= 19,
    ensures
        game == fresh_game(dims, rules),
        board_dims(game) == dims,
{
    Game::builder().size(dims).rule(rules).build().unwrap()
}

/// `Game::is_over`: whether the game has ended, by two passes in a row or
/// by an outcome that was set.
#[verifier::external_body]
pub(crate) fn game_is_over(game: &Game) -> (over: bool)
    ensures
        over == game_over(*game),
{
    game.is_over()
}

/// `Game::turn`: the side to move.
#[verifier::external_body]
pub(crate) fn game_turn(game: &Game) -> (turn: Color)
    ensures
        turn == side_to_move(*game),
{
    match game.turn() {
        goban::pieces::stones::Color::Black => Color::Black,
        goban::pieces::stones::Color::White => Color::White,
    }
}

/// `Game::try_play`: whether the engine took the move. The board keeps its
/// dimensions. The engine indexes its board by the point without a test, so
/// the point is to be on the board.
#[verifier::external_body]
pub(crate) fn game_try_play(game: &mut Game, m: Move) -> (accepted: bool)
    requires
        on_board(m, board_dims(*old(game))),
    ensures
        *final(game) == state_after(*old(game), m),
        board_dims(*final(game)) == board_dims(*old(game)),
{
    let played = match m {
        Move::Play(x, y) => goban::rules::Move::Play(x, y),
        Move::Pass => goban::rules::Move::Pass,
    };
    game.try_play(played).is_ok()
}

/// `Game::outcome`: how the game ended; there is an outcome exactly when
/// the game is over.
#[verifier::external_body]
pub(crate) fn game_outcome(game: &Game) -> (outcome: Option<EndGame>)
    ensures
        outcome == outcome_of(*game),
        outcome is Some <==> game_over(*game),
{
    game.outcome()
}

/// `Game::legals`, collected: the points that the side to move may play,
/// in the order in which the engine walks the board.
#[verifier::external_body]
pub(crate) fn legal_points(game: &Game) -> (points: Vec<(u8, u8)>)
    ensures
        points@ == legal_points_of(*game),
{
    game.legals().collect()
}

/// `Game::goban`: the board as it stands.
#[verifier::external_body]
pub(crate) fn game_board(game: &Game) -> (board: &Goban)
    ensures
        board_stones(*board) == stones_now(*game),
{
    game.goban()
}

/// `Game::history`, its last item: the board that was set aside last, before
/// a play; the history keeps each board once, in the order in which it first
/// came.
#[verifier::external_body]
pub(crate) fn last_board(game: &Game) -> (board: Option<&Goban>)
    ensures
        match board {
            Some(b) => stones_before(*game) == Some(board_stones(*b)),
            None => stones_before(*game) is None,
        },
{
    game.history().last()
}

/// `Game::size`: height and width of the board.
#[verifier::external_body]
pub(crate) fn game_size(game: &Game) -> (dims: (u8, u8))
    ensures
        dims == board_dims(*game),
{
    game.size()
}

/// `Game::komi`, as the text that the number is printed with.
#[verifier::external_body]
pub(crate) fn komi_text(game: &Game) -> (text: String)
    ensures
        text@ == komi_of(*game),
{
    game.komi().to_string()
}

/// `EndGame::get_winner`: the side that won, or nothing for a draw.
#[verifier::external_body]
pub(crate) fn winner_of(outcome: &EndGame) -> (winner: Option<Color>)
    ensures
        winner == winner_in(*outcome),
{
    match outcome.get_winner() {
        Some(goban::pieces::stones::Color::Black) => Some(Color::Black),
        Some(goban::pieces::stones::Color::White) => Some(Color::White),
        None => None,
    }
}

} // verus!
