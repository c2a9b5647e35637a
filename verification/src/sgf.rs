//! The record of a game: for each board of the history a node with the
//! stones that the next board added, below a root node with the players, the
//! komi and the result.

use crate::stones::{difference, lemma_difference_members, new_stones, Color, Stone};
use sgf_parse::go::Prop;
use sgf_parse::{SgfNode, SgfProp};
use vstd::prelude::*;

verus! {

/// One move property of a record node: the player's letter and the point's
/// two letters, column first.
#[derive(Clone, Copy, Debug, PartialEq, Eq)]
pub struct SgfMove {
    pub player: Color,
    pub point: (char, char),
}

/// The letter that a record uses for a player.
pub fn player_letter(player: Color) -> (letter: String)
    ensures
        letter@ == if player == Color::Black {
            "B"@
        } else {
            "W"@
        },
{
    match player {
        Color::Black => "B".to_owned(),
        Color::White => "W".to_owned(),
    }
}

/// Whether both coordinates have a letter: `a` stands for 0, and a letter
/// is one byte.
pub open spec fn has_letters(at: (u8, u8)) -> bool {
    at.0 <= 158 && at.1 <= 158
}

/// The two letters of a point: that of the second coordinate, then that of
/// the first.
pub open spec fn point_letters(at: (u8, u8)) -> (char, char) {
    ((97 + at.1) as u8 as char, (97 + at.0) as u8 as char)
}

pub open spec fn move_of(stone: Stone) -> SgfMove {
    SgfMove { player: stone.color, point: point_letters(stone.coordinates) }
}

/// The move properties of the node between two boards.
pub open spec fn node_moves(before: Seq<Stone>, after: Seq<Stone>) -> Seq<SgfMove> {
    new_stones(before, after).map_values(|s: Stone| move_of(s))
}

/// Whether every stone of a board has letters.
pub open spec fn all_have_letters(board: Seq<Stone>) -> bool {
    forall|i: int| 0 <= i < board.len() ==> has_letters((#[trigger] board[i]).coordinates)
}

/// The board that follows `history[i]`: the next of the history, and the
/// current board after the last.
pub open spec fn successor(history: Seq<Vec<Stone>>, current: Seq<Stone>, i: int) -> Seq<Stone> {
    if i + 1 < history.len() {
        history[i + 1]@
    } else {
        current
    }
}

pub fn sgf_point(at: (u8, u8)) -> (letters: (char, char))
    requires
        has_letters(at),
    ensures
        letters == point_letters(at),
{
    ((97 + at.1) as char, (97 + at.0) as char)
}

/// The move properties for the stones that `after` added to `before`.
pub fn moves_between(before: &Vec<Stone>, after: &Vec<Stone>) -> (moves: Vec<SgfMove>)
    requires
        all_have_letters(after@),
    ensures
        moves@ == node_moves(before@, after@),
{
    let added = difference(before, after);
    let mut moves: Vec<SgfMove> = Vec::new();
    let mut i: usize = 0;
    while i < added.len()
        invariant
            i <= added.len(),
            added@ == new_stones(before@, after@),
            all_have_letters(after@),
            moves@ == added@.take(i as int).map_values(|s: Stone| move_of(s)),
        decreases added.len() - i,
    {
        let stone = added[i];
        proof {
            assert(added@.contains(stone));
            lemma_difference_members(before@, after@, stone);
            let j = choose|j: int| 0 <= j < after@.len() && after@[j] == stone;
            assert(has_letters(after@[j].coordinates));
        }
        moves.push(SgfMove { player: stone.color, point: sgf_point(stone.coordinates) });
        proof {
            assert(added@.take(i + 1) =~= added@.take(i as int).push(stone));
            assert(moves@ =~= added@.take(i + 1).map_values(|s: Stone| move_of(s)));
        }
        i = i + 1;
    }
    assert(added@.take(added.len() as int) =~= added@);
    moves
}

/// The nodes of a record, one for each board of the history: node `i` holds
/// the stones that the board after `history[i]` added to it.
pub fn build_moves(history: &Vec<Vec<Stone>>, current: &Vec<Stone>) -> (nodes: Vec<Vec<SgfMove>>)
    requires
        all_have_letters(current@),
        forall|i: int| 0 <= i < history.len() ==> all_have_letters((#[trigger] history[i])@),
    ensures
        nodes.len() == history.len(),
        forall|i: int|
            0 <= i < nodes.len() ==> (#[trigger] nodes[i])@ == node_moves(
                history[i]@,
                successor(history@, current@, i),
            ),
{
    let mut nodes: Vec<Vec<SgfMove>> = Vec::new();
    let mut i: usize = 0;
    while i < history.len()
        invariant
            i <= history.len(),
            nodes.len() == i,
            all_have_letters(current@),
            forall|k: int| 0 <= k < history.len() ==> all_have_letters((#[trigger] history[k])@),
            forall|k: int|
                0 <= k < i ==> (#[trigger] nodes[k])@ == node_moves(
                    history[k]@,
                    successor(history@, current@, k),
                ),
        decreases history.len() - i,
    {
        let node = if i + 1 < history.len() {
            moves_between(&history[i], &history[i + 1])
        } else {
            moves_between(&history[i], current)
        };
        nodes.push(node);
        i = i + 1;
    }
    nodes
}

/// How a game was won other than on points.
#[derive(Clone, Copy, Debug, PartialEq, Eq)]
pub enum WinKind {
    Resign,
    Time,
    Forfeit,
}

/// The result of a game won by `winner` other than on points: the
/// winner's name, a plus sign and the letter of the kind.
pub open spec fn win_text(winner: Color, kind: WinKind) -> Seq<char> {
    match (winner, kind) {
        (Color::Black, WinKind::Resign) => "Black+R"@,
        (Color::Black, WinKind::Time) => "Black+T"@,
        (Color::Black, WinKind::Forfeit) => "Black+F"@,
        (Color::White, WinKind::Resign) => "White+R"@,
        (Color::White, WinKind::Time) => "White+T"@,
        (Color::White, WinKind::Forfeit) => "White+F"@,
    }
}

pub fn win_result(winner: Color, kind: WinKind) -> (text: String)
    ensures
        text@ == win_text(winner, kind),
{
    match (winner, kind) {
        (Color::Black, WinKind::Resign) => "Black+R".to_owned(),
        (Color::Black, WinKind::Time) => "Black+T".to_owned(),
        (Color::Black, WinKind::Forfeit) => "Black+F".to_owned(),
        (Color::White, WinKind::Resign) => "White+R".to_owned(),
        (Color::White, WinKind::Time) => "White+T".to_owned(),
        (Color::White, WinKind::Forfeit) => "White+F".to_owned(),
    }
}

/// The result of a drawn game.
pub fn draw_result() -> (text: String)
    ensures
        text@ == "0"@,
{
    "0".to_owned()
}

/// What a game record is written from.
#[derive(Debug)]
pub struct GameRecord {
    pub player_black: String,
    pub player_white: String,
    /// The komi, as its decimal text.
    pub komi: String,
    /// The result in the record's notation, once the game is over.
    pub result: Option<String>,
    /// The boards before each play, oldest first.
    pub history: Vec<Vec<Stone>>,
    /// The board now.
    pub current: Vec<Stone>,
}

/// A property as identifier and value.
pub open spec fn pair_view(pair: (String, String)) -> (Seq<char>, Seq<char>) {
    (pair.0@, pair.1@)
}

/// The properties of a node.
pub open spec fn pairs_view(pairs: Seq<(String, String)>) -> Seq<(Seq<char>, Seq<char>)> {
    pairs.map_values(|p: (String, String)| pair_view(p))
}

/// The nodes of a record, root first.
pub open spec fn nodes_view(nodes: Seq<Vec<(String, String)>>) -> Seq<Seq<(Seq<char>, Seq<char>)>> {
    nodes.map_values(|n: Vec<(String, String)>| pairs_view(n@))
}

/// The property of a move: the player's letter and the two letters of the
/// point.
pub open spec fn move_property(m: SgfMove) -> (Seq<char>, Seq<char>) {
    (
        if m.player == Color::Black {
            "B"@
        } else {
            "W"@
        },
        seq![m.point.0, m.point.1],
    )
}

/// The properties of the root node: both players, the komi, and the result
/// where there is one.
pub open spec fn root_properties(record: GameRecord) -> Seq<(Seq<char>, Seq<char>)> {
    let head = seq![
        ("PB"@, record.player_black@),
        ("PW"@, record.player_white@),
        ("KM"@, record.komi@),
    ];
    match record.result {
        Some(result) => head.push(("RE"@, result@)),
        None => head,
    }
}

/// The nodes of the record of a game: the root, then one node for each
/// board of the history.
pub open spec fn record_nodes(record: GameRecord) -> Seq<Seq<(Seq<char>, Seq<char>)>> {
    seq![root_properties(record)] + Seq::new(
        record.history@.len(),
        |i: int|
            node_moves(
                record.history@[i]@,
                successor(record.history@, record.current@, i),
            ).map_values(|m: SgfMove| move_property(m)),
    )
}

/// Whether an identifier is one that a game record is written with: a
/// player's name, the komi, the result, or a move of either side. Each of
/// these holds one value, which is written as it stands.
pub open spec fn record_identifier(id: Seq<char>) -> bool {
    id == "PB"@ || id == "PW"@ || id == "KM"@ || id == "RE"@ || id == "B"@ || id == "W"@
}

/// Whether every property of every node bears such an identifier.
pub open spec fn plain_record(nodes: Seq<Seq<(Seq<char>, Seq<char>)>>) -> bool {
    forall|i: int, j: int|
        0 <= i < nodes.len() && 0 <= j < nodes[i].len() ==> record_identifier(
            (#[trigger] nodes[i][j]).0,
        )
}

/// The nodes of the record of a game bear no other identifiers.
pub proof fn lemma_record_is_plain(record: GameRecord)
    ensures
        plain_record(record_nodes(record)),
{
    let nodes = record_nodes(record);
    assert forall|i: int, j: int| 0 <= i < nodes.len() && 0 <= j < nodes[i].len() implies
        record_identifier((#[trigger] nodes[i][j]).0) by {
        if i == 0 {
            assert(nodes[0] == root_properties(record));
        } else {
            let moves = node_moves(
                record.history@[i - 1]@,
                successor(record.history@, record.current@, i - 1),
            );
            assert(nodes[i] == moves.map_values(|m: SgfMove| move_property(m)));
            assert(nodes[i][j] == move_property(moves[j]));
        }
    }
}

/// The text of the record whose main line has these nodes, each with its
/// properties in order.
pub uninterp spec fn record_text(nodes: Seq<Seq<(Seq<char>, Seq<char>)>>) -> Seq<char>;

/// `String::push`: the character is appended.
#[verifier::external_body]
fn push_char(text: &mut String, c: char)
    ensures
        final(text)@ == old(text)@.push(c),
{
    text.push(c)
}

/// `sgf_parse::serialize` on the tree that `SgfNode::new` and `Prop::new`
/// build from the nodes, each the only child of the one before: the text
/// depends on the identifiers and values alone. This holds of properties
/// with one value that is written as it stands; a property that lists
/// points is kept as a set and written in no fixed order, so the identifiers
/// are held to those of a game record.
#[verifier::external_body]
fn serialize_nodes(nodes: &Vec<Vec<(String, String)>>) -> (text: String)
    requires
        plain_record(nodes_view(nodes@)),
    ensures
        text@ == record_text(nodes_view(nodes@)),
{
    let mut children: Vec<SgfNode<Prop>> = Vec::new();
    for node in nodes.iter().rev() {
        let properties =
            node.iter().map(|(id, value)| Prop::new(id.clone(), vec![value.clone()])).collect();
        children = vec![SgfNode::new(properties, children, false)];
    }
    let trees: Vec<sgf_parse::GameTree> = children.into_iter().map(|n| n.into()).collect();
    sgf_parse::serialize(&trees)
}

/// The property of one move.
pub fn move_pair(m: &SgfMove) -> (pair: (String, String))
    ensures
        pair_view(pair) == move_property(*m),
{
    let mut point = String::new();
    push_char(&mut point, m.point.0);
    push_char(&mut point, m.point.1);
    proof {
        assert(point@ =~= seq![m.point.0, m.point.1]);
    }
    (player_letter(m.player), point)
}

fn node_pairs(moves: &Vec<SgfMove>) -> (pairs: Vec<(String, String)>)
    ensures
        pairs_view(pairs@) == moves@.map_values(|m: SgfMove| move_property(m)),
{
    let mut pairs: Vec<(String, String)> = Vec::new();
    let mut i: usize = 0;
    while i < moves.len()
        invariant
            i <= moves.len(),
            pairs_view(pairs@) == moves@.take(i as int).map_values(|m: SgfMove| move_property(m)),
        decreases moves.len() - i,
    {
        let ghost before = pairs@;
        let pair = move_pair(&moves[i]);
        pairs.push(pair);
        proof {
            assert(pairs@ == before.push(pair));
            assert(moves@.take(i + 1) =~= moves@.take(i as int).push(moves@[i as int]));
            assert(pairs_view(pairs@) =~= pairs_view(before).push(pair_view(pair)));
            assert(pairs_view(pairs@) =~= moves@.take(i + 1).map_values(
                |m: SgfMove| move_property(m),
            ));
        }
        i = i + 1;
    }
    assert(moves@.take(moves.len() as int) =~= moves@);
    pairs
}

fn root_pairs(record: &GameRecord) -> (pairs: Vec<(String, String)>)
    ensures
        pairs_view(pairs@) == root_properties(*record),
{
    let mut pairs: Vec<(String, String)> = Vec::new();
    pairs.push(("PB".to_owned(), record.player_black.clone()));
    pairs.push(("PW".to_owned(), record.player_white.clone()));
    pairs.push(("KM".to_owned(), record.komi.clone()));
    match &record.result {
        Some(result) => {
            pairs.push(("RE".to_owned(), result.clone()));
        },
        None => {},
    }
    proof {
        assert(pairs_view(pairs@) =~= root_properties(*record));
    }
    pairs
}

/// The property lists of the record of a game, root first.
pub fn record_properties(record: &GameRecord) -> (nodes: Vec<Vec<(String, String)>>)
    requires
        all_have_letters(record.current@),
        forall|i: int|
            0 <= i < record.history.len() ==> all_have_letters((#[trigger] record.history[i])@),
    ensures
        nodes_view(nodes@) == record_nodes(*record),
{
    let moves = build_moves(&record.history, &record.current);
    let mut nodes: Vec<Vec<(String, String)>> = Vec::new();
    nodes.push(root_pairs(record));
    let mut i: usize = 0;
    while i < moves.len()
        invariant
            i <= moves.len(),
            moves.len() == record.history.len(),
            nodes.len() == i + 1,
            pairs_view(nodes[0]@) == root_properties(*record),
            forall|k: int|
                0 <= k < moves.len() ==> (#[trigger] moves[k])@ == node_moves(
                    record.history[k]@,
                    successor(record.history@, record.current@, k),
                ),
            forall|k: int|
                0 <= k < i ==> pairs_view((#[trigger] nodes[k + 1])@) == moves[k]@.map_values(
                    |m: SgfMove| move_property(m),
                ),
        decreases moves.len() - i,
    {
        let pairs = node_pairs(&moves[i]);
        nodes.push(pairs);
        i = i + 1;
    }
    proof {
        let expected = record_nodes(*record);
        assert(nodes_view(nodes@).len() == expected.len());
        assert forall|k: int| 0 <= k < expected.len() implies nodes_view(nodes@)[k]
            == expected[k] by {
            if k > 0 {
                assert(pairs_view(nodes[(k - 1) + 1]@) == moves[k - 1]@.map_values(
                    |m: SgfMove| move_property(m),
                ));
            }
        }
        assert(nodes_view(nodes@) =~= expected);
    }
    nodes
}

/// The record of a game as text.
pub fn game_to_sgf(record: &GameRecord) -> (text: String)
    requires
        all_have_letters(record.current@),
        forall|i: int|
            0 <= i < record.history.len() ==> all_have_letters((#[trigger] record.history[i])@),
    ensures
        text@ == record_text(record_nodes(*record)),
{
    let nodes = record_properties(record);
    proof {
        lemma_record_is_plain(*record);
    }
    serialize_nodes(&nodes)
}

} // verus!
