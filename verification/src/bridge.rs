//! The decisions of the engine bridge: what to send so that the engine's
//! board follows the game, and when to stop waiting for an answer.

use crate::protocol::{
    decode_reply, decoded_reply, move_or_pass, vertex_of, Command, GtpError, Move,
};
use crate::rules::{
    board_dims, game_board, game_size, game_turn, komi_of, komi_text, last_board, side_to_move,
    stones_before, stones_now,
};
use crate::stones::{difference, new_stones, stones_of, Color, Stone};
use goban::rules::game::Game;
use vstd::prelude::*;
use vstd::string::*;

verus! {

/// What the bridge reads of a game before a turn.
#[derive(Clone, Debug)]
pub struct Position {
    /// The stones on the board now.
    pub stones: Vec<Stone>,
    /// The stones of the board that the history lists last, if it has one.
    pub previous: Option<Vec<Stone>>,
    /// How many passes were played in a row up to now.
    pub passes: u32,
    /// The side to move.
    pub turn: Color,
    /// Height of the board.
    pub height: u32,
    /// Width of the board.
    pub width: u32,
    /// The komi, as its decimal text.
    pub komi: String,
}

/// One `play` command for each stone, in order.
pub open spec fn placements(stones: Seq<Stone>) -> Seq<Command> {
    stones.map_values(|s: Stone| Command::Play(s))
}

/// The commands that bring the engine's board up to `position`.
///
/// Before the first full transmission: clear the board, set komi and size,
/// and place every stone. Afterwards: place the stones that the last move
/// added, and nothing after a pass or on the first board.
pub open spec fn sync_plan(is_setup: bool, position: Position) -> Seq<Command> {
    if !is_setup {
        seq![
            Command::ClearBoard,
            Command::Komi(position.komi),
            Command::BoardSize(position.height, position.width),
        ] + placements(new_stones(Seq::<Stone>::empty(), position.stones@))
    } else if position.passes == 0 && position.previous is Some {
        placements(new_stones(position.previous->Some_0@, position.stones@))
    } else {
        Seq::<Command>::empty()
    }
}

fn push_placements(commands: &mut Vec<Command>, stones: &Vec<Stone>)
    ensures
        final(commands)@ == old(commands)@ + placements(stones@),
{
    let ghost head = commands@;
    let mut i: usize = 0;
    while i < stones.len()
        invariant
            i <= stones.len(),
            commands@ == head + placements(stones@.take(i as int)),
        decreases stones.len() - i,
    {
        commands.push(Command::Play(stones[i]));
        proof {
            assert(stones@.take(i + 1) =~= stones@.take(i as int).push(stones@[i as int]));
            assert(commands@ =~= head + placements(stones@.take(i + 1)));
        }
        i = i + 1;
    }
    assert(stones@.take(stones.len() as int) =~= stones@);
}

/// The bridge's memory of one engine process: whether the whole board has
/// been sent to it yet.
#[derive(Debug)]
pub struct Session {
    is_setup: bool,
}

impl Session {
    /// Whether a full board has been sent.
    pub closed spec fn synced(&self) -> bool {
        self.is_setup
    }

    /// The session of a process that has been sent nothing.
    pub fn new() -> (session: Session)
        ensures
            !session.synced(),
    {
        Session { is_setup: false }
    }

    pub fn is_setup(&self) -> (b: bool)
        ensures
            b == self.synced(),
    {
        self.is_setup
    }

    /// The commands to send before asking for a move, in order.
    pub fn sync_commands(&self, position: &Position) -> (commands: Vec<Command>)
        ensures
            commands@ == sync_plan(self.synced(), *position),
    {
        let mut commands: Vec<Command> = Vec::new();
        if !self.is_setup {
            commands.push(Command::ClearBoard);
            commands.push(Command::Komi(position.komi.clone()));
            commands.push(Command::BoardSize(position.height, position.width));
            let empty: Vec<Stone> = Vec::new();
            let all = difference(&empty, &position.stones);
            proof {
                assert(empty@ =~= Seq::<Stone>::empty());
                assert(commands@ =~= seq![
                    Command::ClearBoard,
                    Command::Komi(position.komi),
                    Command::BoardSize(position.height, position.width),
                ]);
            }
            push_placements(&mut commands, &all);
        } else if position.passes == 0 {
            match &position.previous {
                Some(last) => {
                    let added = difference(last, &position.stones);
                    push_placements(&mut commands, &added);
                    assert(commands@ =~= placements(added@));
                },
                None => {},
            }
        }
        commands
    }

    /// Records that every command of a plan was sent without error. The
    /// session never goes back to the state before.
    pub fn commands_sent(&mut self)
        ensures
            final(self).synced(),
    {
        self.is_setup = true;
    }
}

/// The command that asks the engine for the move of the side to play.
pub fn genmove_command(position: &Position) -> (command: Command)
    ensures
        command == Command::GenMove(position.turn),
{
    Command::GenMove(position.turn)
}

/// Whether the last play put down a stone of `side`: some stone that
/// `stones` added to `previous` is of that colour. For the side to move this
/// tells that the other side has passed since.
pub fn added_stone_of(previous: &Vec<Stone>, stones: &Vec<Stone>, side: Color) -> (found: bool)
    ensures
        found == exists|i: int|
            0 <= i < new_stones(previous@, stones@).len() && (#[trigger] new_stones(
                previous@,
                stones@,
            )[i]).color == side,
{
    let added = difference(previous, stones);
    let mut i: usize = 0;
    while i < added.len()
        invariant
            i <= added.len(),
            added@ == new_stones(previous@, stones@),
            forall|k: int| 0 <= k < i ==> (#[trigger] added@[k]).color != side,
        decreases added.len() - i,
    {
        let same = match (added[i].color, side) {
            (Color::Black, Color::Black) => true,
            (Color::White, Color::White) => true,
            _ => false,
        };
        if same {
            return true;
        }
        i = i + 1;
    }
    false
}

/// Whether `side` played last: the latest board added a stone of its colour.
pub open spec fn played_last(position: Position, side: Color) -> bool {
    position.previous is Some && exists|i: int|
        0 <= i < new_stones(position.previous->Some_0@, position.stones@).len() && (
        #[trigger] new_stones(position.previous->Some_0@, position.stones@)[i]).color == side
}

/// What the bridge reads of `game`. The rules engine keeps its count of
/// passes to itself; one pass is counted where the side to move played last,
/// for then the other side has passed since.
pub fn position_of(game: &Game) -> (position: Position)
    ensures
        position.stones@ == stones_now(*game),
        match position.previous {
            Some(last) => stones_before(*game) == Some(last@),
            None => stones_before(*game) is None,
        },
        position.turn == side_to_move(*game),
        position.komi@ == komi_of(*game),
        (position.height, position.width) == (
            board_dims(*game).0 as u32,
            board_dims(*game).1 as u32,
        ),
        position.passes == if played_last(position, position.turn) {
            1u32
        } else {
            0u32
        },
{
    let stones = stones_of(game_board(game));
    let previous = match last_board(game) {
        Some(board) => Some(stones_of(board)),
        None => None,
    };
    let turn = game_turn(game);
    let passed = match &previous {
        Some(last) => added_stone_of(last, &stones, turn),
        None => false,
    };
    let dims = game_size(game);
    Position {
        stones,
        previous,
        passes: if passed {
            1
        } else {
            0
        },
        turn,
        height: dims.0 as u32,
        width: dims.1 as u32,
        komi: komi_text(game),
    }
}

/// One turn of the bridge: the commands to send, in order, and how many of
/// them the engine has answered. The last command asks for the move; those
/// before it bring the engine's board up to the game.
#[derive(Debug)]
pub struct Turn {
    commands: Vec<Command>,
    answered: usize,
}

impl Turn {
    /// The commands of the turn.
    pub closed spec fn commands(&self) -> Seq<Command> {
        self.commands@
    }

    /// How many commands have been answered; all of them once the turn is
    /// over.
    pub closed spec fn answered(&self) -> int {
        self.answered as int
    }

    /// Whether the turn has its move.
    pub open spec fn finished(&self) -> bool {
        self.answered() >= self.commands().len()
    }

    /// The turn for `position`: the session's plan, then the request for a
    /// move of the side to play.
    pub fn begin(session: &Session, position: &Position) -> (turn: Turn)
        ensures
            turn.commands() == sync_plan(session.synced(), *position).push(
                Command::GenMove(position.turn),
            ),
            turn.answered() == 0,
            !turn.finished(),
    {
        let mut commands = session.sync_commands(position);
        commands.push(genmove_command(position));
        Turn { commands, answered: 0 }
    }

    /// The command to send now; none once the turn is over.
    pub fn command(&self) -> (next: Option<&Command>)
        ensures
            match next {
                Some(c) => !self.finished() && *c == self.commands()[self.answered()],
                None => self.finished(),
            },
    {
        if self.answered < self.commands.len() {
            Some(&self.commands[self.answered])
        } else {
            None
        }
    }

    /// Takes the engine's answer to the command sent last, and gives the
    /// move once the turn is over.
    ///
    /// A failure ends the turn with a pass and leaves the session as it was.
    /// The answer to the last command is decoded into the move. Any other
    /// answer moves on to the next command; when it was the answer to the
    /// last command of the plan, the session counts as set up.
    pub fn reply(&mut self, session: &mut Session, reply: Result<String, GtpError>) -> (done: Option<
        Move,
    >)
        ensures
            final(self).commands() == old(self).commands(),
            old(session).synced() ==> final(session).synced(),
            old(self).finished() ==> done == Some(Move::Pass) && *final(self) == *old(self)
                && *final(session) == *old(session),
            !old(self).finished() ==> match reply {
                Err(_) => {
                    &&& done == Some(Move::Pass)
                    &&& final(self).finished()
                    &&& *final(session) == *old(session)
                },
                Ok(payload) => {
                    &&& final(self).answered() == old(self).answered() + 1
                    &&& if final(self).finished() {
                        &&& done == Some(decoded_reply(vertex_of(payload@)))
                        &&& *final(session) == *old(session)
                    } else {
                        &&& done is None
                        &&& final(session).synced() == (old(session).synced()
                            || old(self).answered() + 2 == old(self).commands().len())
                    }
                },
            },
    {
        let count = self.commands.len();
        if self.answered >= count {
            return Some(Move::Pass);
        }
        match reply {
            Err(e) => {
                self.answered = count;
                Some(move_or_pass(Err(e)))
            },
            Ok(payload) => {
                self.answered = self.answered + 1;
                if self.answered == count {
                    Some(decode_reply(payload.as_str()))
                } else {
                    if self.answered + 1 == count {
                        session.commands_sent();
                    }
                    None
                }
            },
        }
    }
}

/// A turn never sends a stone for a pass: each of its commands but the last
/// is a command of the plan, and the last asks for a move.
pub proof fn lemma_turn_commands(is_setup: bool, position: Position, i: int)
    requires
        0 <= i <= sync_plan(is_setup, position).len(),
    ensures
        ({
            let commands = sync_plan(is_setup, position).push(Command::GenMove(position.turn));
            if i < sync_plan(is_setup, position).len() {
                commands[i] == sync_plan(is_setup, position)[i] && !(commands[i] is GenMove)
            } else {
                commands[i] == Command::GenMove(position.turn)
            }
        }),
{
    if i < sync_plan(is_setup, position).len() {
        lemma_plan_places_new_stones(is_setup, position, i);
    }
}

/// Every `play` command of a plan places a stone that stands on the board
/// of the position, on a point that the earlier board left free: a plan
/// holds no command for a pass, and none for a stone already sent.
pub proof fn lemma_plan_places_new_stones(is_setup: bool, position: Position, i: int)
    requires
        0 <= i < sync_plan(is_setup, position).len(),
    ensures
        match sync_plan(is_setup, position)[i] {
            Command::Play(stone) => position.stones@.contains(stone) && (is_setup ==> {
                &&& position.passes == 0
                &&& position.previous is Some
                &&& !crate::stones::occupied(position.previous->Some_0@, stone.coordinates)
            }),
            Command::GenMove(_) => false,
            _ => !is_setup && i < 3,
        },
{
    if !is_setup {
        let all = new_stones(Seq::<Stone>::empty(), position.stones@);
        if i >= 3 {
            assert(sync_plan(is_setup, position)[i] == Command::Play(all[i - 3]));
            assert(all.contains(all[i - 3]));
            crate::stones::lemma_difference_members(
                Seq::<Stone>::empty(),
                position.stones@,
                all[i - 3],
            );
        }
    } else {
        let added = new_stones(position.previous->Some_0@, position.stones@);
        assert(sync_plan(is_setup, position)[i] == Command::Play(added[i]));
        assert(added.contains(added[i]));
        crate::stones::lemma_difference_members(
            position.previous->Some_0@,
            position.stones@,
            added[i],
        );
    }
}

/// Every stone that the position added to the earlier board is placed by
/// the plan of a session that was set up, when no pass came before.
pub proof fn lemma_plan_skips_no_stone(position: Position, stone: Stone)
    requires
        position.passes == 0,
        position.previous is Some,
        position.stones@.contains(stone),
        !crate::stones::occupied(position.previous->Some_0@, stone.coordinates),
    ensures
        sync_plan(true, position).contains(Command::Play(stone)),
{
    let added = new_stones(position.previous->Some_0@, position.stones@);
    crate::stones::lemma_difference_members(position.previous->Some_0@, position.stones@, stone);
    let j = choose|j: int| 0 <= j < added.len() && added[j] == stone;
    assert(sync_plan(true, position)[j] == Command::Play(stone));
}

/// How often the reader looks for a line before it gives up.
pub const MAX_ATTEMPTS: u32 = 1000;

/// What to do after a line was offered to the reader.
#[derive(Clone, Copy, Debug, PartialEq, Eq)]
pub enum ReadStep {
    /// The response is not complete: pause, then look for the next line.
    Wait,
    /// The blank line that ends the response has come.
    Complete,
    /// The attempts are used up and the response is not complete.
    TimedOut,
}

/// Whether a line is the blank line that ends a response.
pub open spec fn is_blank(line: Seq<char>) -> bool {
    line == "\n"@ || line == "\r\n"@
}

/// The text gathered after one more line: a blank line after some text
/// closes the response, a blank line before any text is dropped, any other
/// line is appended.
pub open spec fn gathered(text: Seq<char>, line: Option<Seq<char>>) -> Seq<char> {
    match line {
        Some(l) => if is_blank(l) {
            if text.len() > 0 {
                text + "\n"@
            } else {
                text
            }
        } else {
            text + l
        },
        None => text,
    }
}

/// The step after one more line.
pub open spec fn step_after(attempts: u32, text: Seq<char>, line: Option<Seq<char>>) -> ReadStep {
    if attempts >= MAX_ATTEMPTS {
        ReadStep::TimedOut
    } else if line is Some && is_blank(line->Some_0) && text.len() > 0 {
        ReadStep::Complete
    } else if attempts + 1 >= MAX_ATTEMPTS {
        ReadStep::TimedOut
    } else {
        ReadStep::Wait
    }
}

/// The attempts counted and the text gathered once `lines` have been offered
/// in order to a reader that stood at `attempts` and `text`.
pub open spec fn reader_after(
    attempts: u32,
    text: Seq<char>,
    lines: Seq<Option<Seq<char>>>,
) -> (u32, Seq<char>)
    decreases lines.len(),
{
    if lines.len() == 0 {
        (attempts, text)
    } else {
        let (a, t) = reader_after(attempts, text, lines.drop_last());
        if a >= MAX_ATTEMPTS {
            (a, t)
        } else {
            ((a + 1) as u32, gathered(t, lines.last()))
        }
    }
}

/// A fresh reader has counted one attempt for each line offered, up to the
/// ceiling.
pub proof fn lemma_reader_counts(lines: Seq<Option<Seq<char>>>)
    ensures
        reader_after(0, Seq::<char>::empty(), lines).0 == if lines.len() < MAX_ATTEMPTS {
            lines.len() as u32
        } else {
            MAX_ATTEMPTS
        },
    decreases lines.len(),
{
    if lines.len() > 0 {
        lemma_reader_counts(lines.drop_last());
    }
}

/// A fresh reader asks to wait fewer times than the ceiling: whatever lines
/// come, the step after line number `MAX_ATTEMPTS` is not `Wait`, nor is any
/// later one.
pub proof fn lemma_reader_gives_up(lines: Seq<Option<Seq<char>>>)
    requires
        lines.len() >= MAX_ATTEMPTS,
    ensures
        ({
            let (attempts, text) = reader_after(0, Seq::<char>::empty(), lines.drop_last());
            step_after(attempts, text, lines.last()) != ReadStep::Wait
        }),
{
    lemma_reader_counts(lines.drop_last());
}

/// Gathers the lines of one response, under a fixed ceiling of attempts.
#[derive(Debug)]
pub struct ResponseReader {
    attempts: u32,
    text: String,
}

impl ResponseReader {
    /// The attempts made so far.
    pub closed spec fn attempts(&self) -> u32 {
        self.attempts
    }

    /// The text gathered so far.
    pub closed spec fn text(&self) -> Seq<char> {
        self.text@
    }

    pub fn new() -> (reader: ResponseReader)
        ensures
            reader.attempts() == 0,
            reader.text() == Seq::<char>::empty(),
    {
        ResponseReader { attempts: 0, text: String::new() }
    }

    /// Takes the outcome of one attempt to read a line: the line, newline
    /// included, or nothing where none was there. Once the ceiling is
    /// reached the reader changes no more and answers `TimedOut`.
    pub fn offer(&mut self, line: Option<String>) -> (step: ReadStep)
        ensures
            step == step_after(
                old(self).attempts(),
                old(self).text(),
                match line {
                    Some(l) => Some(l@),
                    None => None,
                },
            ),
            old(self).attempts() >= MAX_ATTEMPTS ==> *final(self) == *old(self),
            old(self).attempts() < MAX_ATTEMPTS ==> final(self).attempts() == old(self).attempts()
                + 1 && final(self).text() == gathered(
                old(self).text(),
                match line {
                    Some(l) => Some(l@),
                    None => None,
                },
            ),
            step == ReadStep::Wait ==> final(self).attempts() < MAX_ATTEMPTS,
    {
        if self.attempts >= MAX_ATTEMPTS {
            return ReadStep::TimedOut;
        }
        self.attempts = self.attempts + 1;
        let mut complete = false;
        match line {
            Some(l) => {
                let lf = "\n".to_owned();
                let crlf = "\r\n".to_owned();
                if l.eq(&lf) || l.eq(&crlf) {
                    if !self.text.as_str().is_empty() {
                        self.text.append("\n");
                        complete = true;
                    }
                } else {
                    self.text.append(l.as_str());
                }
            },
            None => {},
        }
        if complete {
            ReadStep::Complete
        } else if self.attempts >= MAX_ATTEMPTS {
            ReadStep::TimedOut
        } else {
            ReadStep::Wait
        }
    }

    /// The text gathered, to be parsed once the response is complete.
    pub fn into_text(self) -> (text: String)
        ensures
            text@ == self.text(),
    {
        self.text
    }
}

} // verus!
