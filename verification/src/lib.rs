//! Go-playing agents: board differencing, the text protocol spoken with an
//! engine process, the decisions of the engine bridge and of the match driver.

pub mod bot;
pub mod bridge;
pub mod game;
pub mod mixed;
pub mod protocol;
pub mod rules;
pub mod sgf;
pub mod stones;
