//! The text protocol spoken with an engine process: commands and their wire
//! lines, response framing, and the decoding of a generated move.

use crate::stones::{Color, Stone};
use gtp::ResponseError;
use vstd::prelude::*;
use vstd::string::*;
use vstd::utf8::is_ascii_chars;

verus! {

/// What a side does on its turn. Coordinates are zero-based.
#[derive(Clone, Copy, Debug, PartialEq, Eq, Hash)]
pub enum Move {
    Play(u8, u8),
    Pass,
}

/// Why an exchange with the engine failed.
#[derive(Clone, Copy, Debug, PartialEq, Eq)]
pub enum GtpError {
    /// A stream to or from the process failed.
    Io,
    /// The engine answered with an error response.
    Response,
    /// The answer was not a well-formed response.
    ResponseParse,
    /// No complete answer came within the allowed number of attempts.
    Timeout,
}

/// One command of the protocol.
#[derive(Clone, Debug, PartialEq, Eq)]
pub enum Command {
    ClearBoard,
    /// The komi, as its decimal text.
    Komi(String),
    /// Height and width of the board.
    BoardSize(u32, u32),
    /// Place a stone.
    Play(Stone),
    /// Ask for a move of the given side.
    GenMove(Color),
}

/// The one-based pair that stands on the wire for a zero-based point. The
/// pair `(0, 0)` is never produced: it is the engine's word for a pass.
pub open spec fn wire_vertex(at: (u8, u8)) -> (i32, i32) {
    ((at.0 + 1) as i32, (at.1 + 1) as i32)
}

/// The move that a vertex of a reply stands for: `(0, 0)` is a pass, a pair
/// of one-based coordinates is a play, and anything else counts as a pass.
pub open spec fn decoded(vertex: (i32, i32)) -> Move {
    if vertex.0 == 0 && vertex.1 == 0 {
        Move::Pass
    } else if 1 <= vertex.0 <= 256 && 1 <= vertex.1 <= 256 {
        Move::Play((vertex.0 - 1) as u8, (vertex.1 - 1) as u8)
    } else {
        Move::Pass
    }
}

/// The move of a reply whose payload was read as `vertex`; a payload that is
/// no vertex is a pass.
pub open spec fn decoded_reply(vertex: Option<(i32, i32)>) -> Move {
    match vertex {
        Some(v) => decoded(v),
        None => Move::Pass,
    }
}

pub fn encode_vertex(at: (u8, u8)) -> (vertex: (i32, i32))
    ensures
        vertex == wire_vertex(at),
        vertex.0 >= 1,
        vertex.1 >= 1,
{
    let h: i32 = at.0 as i32;
    let v: i32 = at.1 as i32;
    (h + 1, v + 1)
}

pub fn decode_vertex(vertex: (i32, i32)) -> (m: Move)
    ensures
        m == decoded(vertex),
{
    let (h, v) = vertex;
    if h == 0 && v == 0 {
        Move::Pass
    } else if 1 <= h && h <= 256 && 1 <= v && v <= 256 {
        Move::Play((h - 1) as u8, (v - 1) as u8)
    } else {
        Move::Pass
    }
}

/// A point that is put on the wire and read back is the same point, and is
/// never taken for a pass.
pub proof fn lemma_vertex_round_trip(at: (u8, u8))
    ensures
        decoded(wire_vertex(at)) == Move::Play(at.0, at.1),
        wire_vertex(at) != (0i32, 0i32),
{
}

/// The wire line of a `play` command for a stone of the given side on the
/// one-based vertex `(h, v)`.
pub uninterp spec fn play_text(white: bool, h: i32, v: i32) -> Seq<char>;

/// The wire line of a `boardsize` command.
pub uninterp spec fn boardsize_text(height: u32, width: u32) -> Seq<char>;

/// What the response parser makes of the text of one response: whether it is
/// an error response, and its payload; nothing where the text is no complete
/// response.
pub uninterp spec fn response_of(text: Seq<char>) -> Option<(bool, Seq<char>)>;

/// The vertex that the entity parser reads at the start of a payload, if it
/// reads one.
pub uninterp spec fn vertex_of(text: Seq<char>) -> Option<(i32, i32)>;

/// The line that stands on the wire for a command.
pub open spec fn command_text(command: Command) -> Seq<char> {
    match command {
        Command::ClearBoard => "clear_board\n"@,
        Command::Komi(komi) => "komi "@ + komi@ + "\n"@,
        Command::BoardSize(height, width) => boardsize_text(height, width),
        Command::Play(stone) => play_text(
            stone.color == Color::White,
            wire_vertex(stone.coordinates).0,
            wire_vertex(stone.coordinates).1,
        ),
        Command::GenMove(color) => if color == Color::White {
            "genmove w\n"@
        } else {
            "genmove b\n"@
        },
    }
}

/// `gtp::Command::new` and `to_string` for the command without arguments:
/// the line is the command's name and a newline.
#[verifier::external_body]
fn clear_board_line() -> (line: String)
    ensures
        line@ == "clear_board\n"@,
{
    gtp::Command::new("clear_board").to_string()
}

/// `gtp::Command::new_with_args` with one string entity, and `to_string`:
/// the name, a space, the string as it is, and a newline.
#[verifier::external_body]
fn komi_line(komi: &str) -> (line: String)
    ensures
        line@ == "komi "@ + komi@ + "\n"@,
{
    gtp::Command::new_with_args("komi", |eb| eb.s(komi)).to_string()
}

/// `gtp::Command::new_with_args` with a list of two integers, and
/// `to_string`: the line depends on the two numbers alone.
#[verifier::external_body]
fn boardsize_line(height: u32, width: u32) -> (line: String)
    ensures
        line@ == boardsize_text(height, width),
{
    gtp::Command::new_with_args("boardsize", |eb| eb.i(height).i(width).list()).to_string()
}

/// `gtp::Command::new_with_args` with one move entity, and `to_string`: the
/// line depends on the side and the vertex alone.
#[verifier::external_body]
fn play_line(white: bool, h: i32, v: i32) -> (line: String)
    ensures
        line@ == play_text(white, h, v),
{
    gtp::Command::new_with_args("play", |eb| eb.mv(white, (h, v))).to_string()
}

/// `gtp::Command::new_with_args` with one colour entity, and `to_string`:
/// the name, a space, `w` or `b`, and a newline.
#[verifier::external_body]
fn genmove_line(white: bool) -> (line: String)
    ensures
        line@ == if white {
            "genmove w\n"@
        } else {
            "genmove b\n"@
        },
{
    gtp::Command::new_with_args("genmove", |eb| eb.color(white)).to_string()
}

/// The line to write to the engine for `command`, newline included.
pub fn command_line(command: &Command) -> (line: String)
    ensures
        line@ == command_text(*command),
{
    match command {
        Command::ClearBoard => clear_board_line(),
        Command::Komi(komi) => komi_line(komi.as_str()),
        Command::BoardSize(height, width) => boardsize_line(*height, *width),
        Command::Play(stone) => {
            let vertex = encode_vertex(stone.coordinates);
            let white = match stone.color {
                Color::White => true,
                Color::Black => false,
            };
            play_line(white, vertex.0, vertex.1)
        },
        Command::GenMove(color) => {
            let white = match color {
                Color::White => true,
                Color::Black => false,
            };
            genmove_line(white)
        },
    }
}

#[verifier::external_type_specification]
#[verifier::external_body]
pub struct ExResponseError(ResponseError);

/// `gtp::ResponseParser::feed` and `get_response` on a fresh parser: the
/// outcome depends on the text alone. An error response comes with `true`, a
/// result with `false`, each with its payload. The parser indexes by
/// character what it measured in bytes, so the text is to be ASCII.
#[verifier::external_body]
fn parse_response(text: &str) -> (parsed: Result<(bool, String), ResponseError>)
    requires
        is_ascii(text),
    ensures
        match parsed {
            Ok((rejected, payload)) => response_of(text@) == Some((rejected, payload@)),
            Err(_) => response_of(text@) is None,
        },
{
    let mut parser = gtp::ResponseParser::new();
    parser.feed(text);
    match parser.get_response() {
        Ok(gtp::Response::Error((_, payload))) => Ok((true, payload)),
        Ok(gtp::Response::Result((_, payload))) => Ok((false, payload)),
        Err(e) => Err(e),
    }
}

/// `gtp::EntityParser::vertex` and `result` on a fresh parser: the vertex
/// read from the text, which depends on the text alone.
#[verifier::external_body]
fn parse_vertex(text: &str) -> (vertex: Option<(i32, i32)>)
    ensures
        vertex == vertex_of(text@),
{
    let mut parser = gtp::EntityParser::new(text);
    match parser.vertex().result() {
        Some(entities) => match entities.first() {
            Some(gtp::Entity::Vertex(v)) => Some(*v),
            _ => None,
        },
        None => None,
    }
}

/// The payload that a parsed response yields: that of a result; an error
/// response and a failed parse are two kinds of failure.
pub fn interpret_response(parsed: Result<(bool, String), ResponseError>) -> (reply: Result<
    String,
    GtpError,
>)
    ensures
        match parsed {
            Ok((false, payload)) => reply == Ok::<String, GtpError>(payload),
            Ok((true, _)) => reply == Err::<String, GtpError>(GtpError::Response),
            Err(_) => reply == Err::<String, GtpError>(GtpError::ResponseParse),
        },
{
    match parsed {
        Ok((rejected, payload)) => {
            if rejected {
                Err(GtpError::Response)
            } else {
                Ok(payload)
            }
        },
        Err(_) => Err(GtpError::ResponseParse),
    }
}

/// What `read_response` returns on `text`.
pub open spec fn response_payload(text: Seq<char>) -> Result<Seq<char>, GtpError> {
    if !is_ascii_chars(text) {
        Err(GtpError::ResponseParse)
    } else {
        match response_of(text) {
            Some((false, payload)) => Ok(payload),
            Some((true, _)) => Err(GtpError::Response),
            None => Err(GtpError::ResponseParse),
        }
    }
}

/// Reads the text of one response, terminating blank line included, into
/// its payload.
pub fn read_response(text: &str) -> (reply: Result<String, GtpError>)
    ensures
        match response_payload(text@) {
            Ok(payload) => reply is Ok && reply->Ok_0@ == payload,
            Err(e) => reply == Err::<String, GtpError>(e),
        },
{
    if text.is_ascii() {
        interpret_response(parse_response(text))
    } else {
        Err(GtpError::ResponseParse)
    }
}

/// The move that the payload of a `genmove` reply stands for. A payload that
/// cannot be read as a vertex is a pass.
pub fn decode_reply(payload: &str) -> (m: Move)
    ensures
        m == decoded_reply(vertex_of(payload@)),
{
    match parse_vertex(payload) {
        Some(vertex) => decode_vertex(vertex),
        None => Move::Pass,
    }
}

/// The move of a turn: the engine's, or a pass where the exchange failed.
pub fn move_or_pass(outcome: Result<Move, GtpError>) -> (m: Move)
    ensures
        m == match outcome {
            Ok(chosen) => chosen,
            Err(_) => Move::Pass,
        },
{
    match outcome {
        Ok(chosen) => chosen,
        Err(_) => Move::Pass,
    }
}

} // verus!
