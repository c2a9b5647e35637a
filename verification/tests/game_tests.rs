use bots::bot::{move_for, play_or_default, random_move, Bot, DefaultingBot, RandomBot};
use bots::game::{
    next_mover, play_game, play_out, play_pairing, GameOptions, PairingResults, TournamentOptions,
};
use bots::protocol::Move;
use bots::rules::is_on_board;
use bots::stones::Color;
use goban::rules::game::Game;
use goban::rules::{EndGame, CHINESE, JAPANESE};
use rand::rngs::StdRng;
use rand::SeedableRng;

struct PassBot {
    asked: usize,
}

impl Bot for PassBot {
    fn play(&mut self, _game: &Game) -> Move {
        self.asked += 1;
        Move::Pass
    }
}

struct FixedBot {
    m: Move,
    asked: usize,
}

impl Bot for FixedBot {
    fn play(&mut self, _game: &Game) -> Move {
        self.asked += 1;
        self.m
    }
}

fn draw_scorer(_game: &Game) -> EndGame {
    EndGame::Draw
}

fn black_scorer(_game: &Game) -> EndGame {
    EndGame::WinnerByResign(goban::pieces::stones::Color::Black)
}

fn options(size: u8, max_moves: usize) -> GameOptions {
    GameOptions { rules: JAPANESE, board_size: (size, size), max_moves }
}

#[test]
fn default_options() {
    let options = GameOptions::default();
    assert_eq!(options.board_size, (19, 19));
    assert_eq!(options.max_moves, 512);
    assert_eq!(options.rules, JAPANESE);
}

#[test]
fn new_results_are_empty() {
    let results = PairingResults::new();
    assert_eq!((results.black_wins, results.white_wins, results.draws), (0, 0, 0));
    assert_eq!(results.total_games(), 0);
    let results = PairingResults::default();
    assert_eq!(results.total_games(), 0);
}

#[test]
fn percents_are_undefined_before_the_first_game() {
    let results = PairingResults::new();
    assert_eq!(results.percent_black_wins(), None);
    assert_eq!(results.percent_white_wins(), None);
    assert_eq!(results.percent_draws(), None);
}

#[test]
fn percents_are_counts_over_total() {
    let results = PairingResults { black_wins: 1, white_wins: 2, draws: 5 };
    assert_eq!(results.total_games(), 8);
    assert_eq!(results.percent_black_wins(), Some((1, 8)));
    assert_eq!(results.percent_white_wins(), Some((2, 8)));
    assert_eq!(results.percent_draws(), Some((5, 8)));
    let (wins, total) = results.percent_black_wins().unwrap();
    assert_eq!(wins as f32 / total as f32, 0.125);
}

#[test]
fn record_counts_one_game() {
    let mut results = PairingResults::new();
    results.record(Some(Color::Black));
    results.record(Some(Color::White));
    results.record(Some(Color::White));
    results.record(None);
    assert_eq!((results.black_wins, results.white_wins, results.draws), (1, 2, 1));
    assert_eq!(results.total_games(), 4);
}

#[test]
fn mover_is_the_turn_holder_until_the_end() {
    assert_eq!(next_mover(false, 0, 10, Color::Black), Some(Color::Black));
    assert_eq!(next_mover(false, 9, 10, Color::White), Some(Color::White));
    assert_eq!(next_mover(false, 10, 10, Color::White), None);
    assert_eq!(next_mover(true, 0, 10, Color::Black), None);
    assert_eq!(next_mover(false, 0, 0, Color::Black), None);
}

#[test]
fn moves_off_the_board_are_told_apart() {
    assert!(is_on_board(Move::Pass, (0, 0)));
    assert!(is_on_board(Move::Play(8, 8), (9, 9)));
    assert!(!is_on_board(Move::Play(9, 0), (9, 9)));
    assert!(!is_on_board(Move::Play(0, 9), (9, 9)));
    assert!(is_on_board(Move::Play(0, 9), (9, 19)));
}

#[test]
fn two_passes_end_the_game_with_the_engines_outcome() {
    let mut black = PassBot { asked: 0 };
    let mut white = PassBot { asked: 0 };
    let outcome = play_game(&options(9, 100), &mut black, &mut white, &draw_scorer);
    assert_eq!((black.asked, white.asked), (1, 1));
    assert_eq!(outcome.get_winner(), Some(goban::pieces::stones::Color::White));
}

#[test]
fn move_cap_ends_the_game_with_the_scorers_outcome() {
    let mut black = PassBot { asked: 0 };
    let mut white = PassBot { asked: 0 };
    let outcome = play_game(&options(9, 1), &mut black, &mut white, &draw_scorer);
    assert_eq!((black.asked, white.asked), (1, 0));
    assert_eq!(outcome, EndGame::Draw);
    let outcome = play_game(&options(9, 0), &mut black, &mut white, &black_scorer);
    assert_eq!((black.asked, white.asked), (1, 0));
    assert_eq!(outcome, EndGame::WinnerByResign(goban::pieces::stones::Color::Black));
}

#[test]
fn rejected_moves_use_up_turns() {
    let mut black = FixedBot { m: Move::Play(2, 2), asked: 0 };
    let mut white = FixedBot { m: Move::Play(2, 2), asked: 0 };
    let outcome = play_game(&options(9, 6), &mut black, &mut white, &draw_scorer);
    assert_eq!((black.asked, white.asked), (1, 5));
    assert_eq!(outcome, EndGame::Draw);
}

#[test]
fn moves_off_the_board_use_up_turns() {
    let mut black = FixedBot { m: Move::Play(200, 200), asked: 0 };
    let mut white = PassBot { asked: 0 };
    let outcome = play_game(&options(9, 4), &mut black, &mut white, &black_scorer);
    assert_eq!((black.asked, white.asked), (4, 0));
    assert_eq!(outcome.get_winner(), Some(goban::pieces::stones::Color::Black));
}

#[test]
fn pairing_counts_every_game() {
    for n in [0usize, 1, 3, 7] {
        let tournament = TournamentOptions { game_options: options(9, 50), num_matches: n };
        let mut black = PassBot { asked: 0 };
        let mut white = PassBot { asked: 0 };
        let results = play_pairing(&tournament, &mut black, &mut white, &draw_scorer);
        assert_eq!(results.total_games(), n);
        assert_eq!((results.black_wins, results.white_wins, results.draws), (0, n, 0));
    }
}

#[test]
fn pairing_counts_draws_at_the_cap() {
    let tournament = TournamentOptions { game_options: options(5, 1), num_matches: 4 };
    let mut black = PassBot { asked: 0 };
    let mut white = PassBot { asked: 0 };
    let results = play_pairing(&tournament, &mut black, &mut white, &draw_scorer);
    assert_eq!((results.black_wins, results.white_wins, results.draws), (0, 0, 4));
    let results = play_pairing(&tournament, &mut black, &mut white, &black_scorer);
    assert_eq!((results.black_wins, results.white_wins, results.draws), (4, 0, 0));
}

#[test]
fn random_bots_play_a_pairing_to_the_end() {
    let game_options = GameOptions { rules: CHINESE, board_size: (5, 5), max_moves: 60 };
    let tournament = TournamentOptions { game_options, num_matches: 3 };
    let mut black = RandomBot::new();
    let mut white = RandomBot::new();
    let results = play_pairing(&tournament, &mut black, &mut white, &draw_scorer);
    assert_eq!(results.total_games(), 3);
}

#[test]
fn random_bot_plays_a_legal_point() {
    let game = Game::builder().size((5, 5)).rule(JAPANESE).build().unwrap();
    let mut bot = RandomBot::new();
    for _ in 0..50 {
        match bot.play(&game) {
            Move::Play(x, y) => assert!(x < 5 && y < 5),
            Move::Pass => panic!("a point was free"),
        }
    }
}

#[test]
fn random_move_is_among_the_legal_points() {
    let legals = vec![(1u8, 2u8), (3, 4), (5, 6)];
    let mut seen = [false; 3];
    let mut rng = StdRng::seed_from_u64(7);
    for _ in 0..300 {
        match random_move(&mut rng, &legals) {
            Move::Play(x, y) => {
                let at = legals.iter().position(|p| *p == (x, y)).unwrap();
                seen[at] = true;
            }
            Move::Pass => panic!("a point was there"),
        }
    }
    assert!(seen.iter().all(|s| *s));
    assert_eq!(random_move(&mut rng, &Vec::new()), Move::Pass);
    assert_eq!(random_move(&mut rng, &vec![(7, 8)]), Move::Play(7, 8));
}

#[test]
fn move_for_a_choice() {
    assert_eq!(move_for(Some((3, 4))), Move::Play(3, 4));
    assert_eq!(move_for(None), Move::Pass);
}

struct Shy {
    own: Option<Move>,
}

impl DefaultingBot for Shy {
    fn play(&mut self, _game: &Game) -> Option<Move> {
        self.own
    }

    fn default_play(&mut self, _game: &Game) -> Move {
        Move::Play(1, 1)
    }
}

#[test]
fn defaulting_bot_falls_back() {
    let game = Game::builder().size((5, 5)).rule(JAPANESE).build().unwrap();
    assert_eq!(play_or_default(&mut Shy { own: Some(Move::Pass) }, &game), Move::Pass);
    assert_eq!(play_or_default(&mut Shy { own: None }, &game), Move::Play(1, 1));
}

#[test]
fn seeded_random_bots_repeat_their_moves() {
    let game = Game::builder().size((9, 9)).rule(JAPANESE).build().unwrap();
    let mut first = RandomBot::seeded(42);
    let mut second = RandomBot::seeded(42);
    let mut moves = Vec::new();
    for _ in 0..30 {
        let m = first.play(&game);
        assert_eq!(m, second.play(&game));
        moves.push(m);
    }
    assert!(moves.iter().any(|m| *m != moves[0]));
}

#[test]
fn play_out_stops_when_the_game_is_over() {
    let mut game = Game::builder().size((9, 9)).rule(JAPANESE).build().unwrap();
    let mut black = PassBot { asked: 0 };
    let mut white = PassBot { asked: 0 };
    assert_eq!(play_out(&mut game, 100, &mut black, &mut white), 2);
    assert!(game.is_over());
    assert_eq!(play_out(&mut game, 100, &mut black, &mut white), 0);
    assert_eq!((black.asked, white.asked), (1, 1));
}

#[test]
fn play_out_stops_at_the_cap() {
    let mut game = Game::builder().size((9, 9)).rule(JAPANESE).build().unwrap();
    let mut black = FixedBot { m: Move::Play(4, 4), asked: 0 };
    let mut white = FixedBot { m: Move::Play(3, 3), asked: 0 };
    assert_eq!(play_out(&mut game, 2, &mut black, &mut white), 2);
    assert!(!game.is_over());
    assert_eq!(game.goban().get_stones().count(), 2);
    assert_eq!(play_out(&mut game, 0, &mut black, &mut white), 0);
    assert_eq!(play_out(&mut game, 3, &mut black, &mut white), 3);
    assert_eq!(game.goban().get_stones().count(), 2);
    assert_eq!((black.asked, white.asked), (4, 1));
}

struct Counting {
    own: Option<Move>,
    offers: usize,
    defaults: usize,
}

impl DefaultingBot for Counting {
    fn play(&mut self, _game: &Game) -> Option<Move> {
        self.offers += 1;
        self.own
    }

    fn default_play(&mut self, _game: &Game) -> Move {
        self.defaults += 1;
        Move::Play(0, 0)
    }
}

#[test]
fn default_is_asked_for_only_when_needed() {
    let game = Game::builder().size((5, 5)).rule(JAPANESE).build().unwrap();
    let mut has_move = Counting { own: Some(Move::Play(2, 2)), offers: 0, defaults: 0 };
    assert_eq!(play_or_default(&mut has_move, &game), Move::Play(2, 2));
    assert_eq!((has_move.offers, has_move.defaults), (1, 0));
    let mut has_none = Counting { own: None, offers: 0, defaults: 0 };
    assert_eq!(play_or_default(&mut has_none, &game), Move::Play(0, 0));
    assert_eq!((has_none.offers, has_none.defaults), (1, 1));
}

#[test]
fn random_bot_passes_on_a_full_board() {
    let game = Game::builder().size((0, 0)).rule(JAPANESE).build().unwrap();
    let mut bot = RandomBot::seeded(3);
    assert_eq!(bot.play(&game), Move::Pass);
}
