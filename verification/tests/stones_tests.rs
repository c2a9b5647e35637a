use bots::stones::{difference, goban_difference, Color, Stone};
use goban::pieces::goban::Goban;

fn stone(x: u8, y: u8, color: Color) -> Stone {
    Stone { coordinates: (x, y), color }
}

#[test]
fn difference_keeps_stones_on_free_points() {
    let before = vec![stone(0, 0, Color::Black), stone(3, 3, Color::White)];
    let after = vec![
        stone(0, 0, Color::Black),
        stone(2, 5, Color::Black),
        stone(3, 3, Color::White),
        stone(18, 18, Color::White),
    ];
    let added = difference(&before, &after);
    assert_eq!(added, vec![stone(2, 5, Color::Black), stone(18, 18, Color::White)]);
}

#[test]
fn difference_goes_by_coordinates() {
    let before = vec![stone(4, 4, Color::Black)];
    let after = vec![stone(4, 4, Color::White), stone(4, 5, Color::White)];
    assert_eq!(difference(&before, &after), vec![stone(4, 5, Color::White)]);
}

#[test]
fn difference_with_itself_is_empty() {
    let board = vec![stone(1, 2, Color::Black), stone(255, 255, Color::White)];
    assert!(difference(&board, &board).is_empty());
    let empty: Vec<Stone> = Vec::new();
    assert!(difference(&empty, &empty).is_empty());
}

#[test]
fn difference_from_empty_is_the_whole_board() {
    let board = vec![
        stone(0, 255, Color::Black),
        stone(255, 0, Color::White),
        stone(7, 7, Color::Black),
    ];
    assert_eq!(difference(&Vec::new(), &board), board);
}

#[test]
fn difference_leaves_inputs_alone() {
    let before = vec![stone(1, 1, Color::Black)];
    let after = vec![stone(1, 1, Color::Black), stone(2, 2, Color::White)];
    let before_copy = before.clone();
    let after_copy = after.clone();
    let _ = difference(&before, &after);
    assert_eq!(before, before_copy);
    assert_eq!(after, after_copy);
}

#[test]
fn removed_stones_are_not_reported() {
    let before = vec![stone(1, 1, Color::Black), stone(2, 2, Color::White)];
    let after = vec![stone(1, 1, Color::Black)];
    assert!(difference(&before, &after).is_empty());
}

#[test]
fn goban_difference_reads_the_boards() {
    let mut before = Goban::new((9, 9));
    before.push((2, 2), goban::pieces::stones::Color::Black);
    let mut after = before.clone();
    after.push((4, 5), goban::pieces::stones::Color::White);
    let added = goban_difference(&before, &after);
    assert_eq!(added, vec![stone(4, 5, Color::White)]);
    assert!(goban_difference(&after, &after).is_empty());
    let empty = Goban::new((9, 9));
    let all = goban_difference(&empty, &after);
    assert_eq!(all.len(), 2);
    assert!(all.contains(&stone(2, 2, Color::Black)));
    assert!(all.contains(&stone(4, 5, Color::White)));
}
