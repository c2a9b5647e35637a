use bots::sgf::{build_moves, moves_between, player_letter, sgf_point, SgfMove};
use bots::stones::{Color, Stone};

fn stone(x: u8, y: u8, color: Color) -> Stone {
    Stone { coordinates: (x, y), color }
}

#[test]
fn player_letters() {
    assert_eq!(player_letter(Color::Black), "B");
    assert_eq!(player_letter(Color::White), "W");
}

#[test]
fn point_letters_put_the_second_coordinate_first() {
    assert_eq!(sgf_point((0, 0)), ('a', 'a'));
    assert_eq!(sgf_point((2, 3)), ('d', 'c'));
    assert_eq!(sgf_point((18, 0)), ('a', 's'));
}

#[test]
fn moves_between_two_boards() {
    let before = vec![stone(3, 3, Color::Black)];
    let after = vec![stone(3, 3, Color::Black), stone(2, 15, Color::White)];
    assert_eq!(
        moves_between(&before, &after),
        vec![SgfMove { player: Color::White, point: ('p', 'c') }]
    );
    assert!(moves_between(&after, &after).is_empty());
}

#[test]
fn one_node_for_each_board_of_the_history() {
    let first: Vec<Stone> = Vec::new();
    let second = vec![stone(3, 3, Color::Black)];
    let current = vec![stone(3, 3, Color::Black), stone(4, 4, Color::White)];
    let nodes = build_moves(&vec![first, second], &current);
    assert_eq!(
        nodes,
        vec![
            vec![SgfMove { player: Color::Black, point: ('d', 'd') }],
            vec![SgfMove { player: Color::White, point: ('e', 'e') }],
        ]
    );
    assert!(build_moves(&Vec::new(), &current).is_empty());
}

fn record(result: Option<&str>) -> bots::sgf::GameRecord {
    bots::sgf::GameRecord {
        player_black: String::from("Black"),
        player_white: String::from("White"),
        komi: String::from("6.5"),
        result: result.map(String::from),
        history: vec![Vec::new(), vec![stone(3, 3, Color::Black)]],
        current: vec![stone(3, 3, Color::Black), stone(4, 2, Color::White)],
    }
}

#[test]
fn move_pairs() {
    let black = SgfMove { player: Color::Black, point: ('d', 'c') };
    assert_eq!(bots::sgf::move_pair(&black), (String::from("B"), String::from("dc")));
    let white = SgfMove { player: Color::White, point: ('a', 's') };
    assert_eq!(bots::sgf::move_pair(&white), (String::from("W"), String::from("as")));
}

#[test]
fn record_property_lists() {
    let pair = |id: &str, value: &str| (String::from(id), String::from(value));
    assert_eq!(
        bots::sgf::record_properties(&record(Some("W+6.5"))),
        vec![
            vec![pair("PB", "Black"), pair("PW", "White"), pair("KM", "6.5"), pair("RE", "W+6.5")],
            vec![pair("B", "dd")],
            vec![pair("W", "ce")],
        ]
    );
    assert_eq!(bots::sgf::record_properties(&record(None))[0].len(), 3);
}

#[test]
fn record_text_of_a_short_game() {
    assert_eq!(
        bots::sgf::game_to_sgf(&record(None)),
        "(;PB[Black]PW[White]KM[6.5];B[dd];W[ce])"
    );
    assert_eq!(
        bots::sgf::game_to_sgf(&record(Some("W+6.5"))),
        "(;PB[Black]PW[White]KM[6.5]RE[W+6.5];B[dd];W[ce])"
    );
}

#[test]
fn record_text_without_moves() {
    let empty = bots::sgf::GameRecord {
        player_black: String::from("a"),
        player_white: String::from("b"),
        komi: String::from("0"),
        result: Some(String::from("0")),
        history: Vec::new(),
        current: Vec::new(),
    };
    assert_eq!(bots::sgf::game_to_sgf(&empty), "(;PB[a]PW[b]KM[0]RE[0])");
}

#[test]
fn results_without_points() {
    assert_eq!(bots::sgf::win_result(Color::Black, bots::sgf::WinKind::Resign), "Black+R");
    assert_eq!(bots::sgf::win_result(Color::White, bots::sgf::WinKind::Resign), "White+R");
    assert_eq!(bots::sgf::win_result(Color::Black, bots::sgf::WinKind::Time), "Black+T");
    assert_eq!(bots::sgf::win_result(Color::White, bots::sgf::WinKind::Time), "White+T");
    assert_eq!(bots::sgf::win_result(Color::Black, bots::sgf::WinKind::Forfeit), "Black+F");
    assert_eq!(bots::sgf::win_result(Color::White, bots::sgf::WinKind::Forfeit), "White+F");
    assert_eq!(bots::sgf::draw_result(), "0");
}
