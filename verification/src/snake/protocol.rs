//! Messages exchanged between the game server and its clients.
use vstd::prelude::*;
use super::direction::{direction_of_word, Direction};
use crate::text::{all_ascii, ascii_lower_all, lowercase_text, str_eq, trim, trimmed_text};

verus! {

/// Messages sent from client to server
#[derive(Debug, Clone, PartialEq, Eq)]
pub enum ClientMessage {
    /// Direction change command
    Direction(Direction),
    /// Ping to keep connection alive
    Ping(String),
}

/// The meaning of a client's text line.
pub enum ClientCommand {
    /// A direction word
    Turn(Direction),
    /// The keep-alive word
    Ping,
}

/// What a client's text line means: a direction word (any case), or the
/// word `ping`, after surrounding white space is removed. An ASCII word is
/// lower-cased letter by letter.
pub open spec fn client_command_of(line: Seq<char>) -> Option<ClientCommand> {
    let w = trimmed_text(line);
    let lw = if all_ascii(w) { ascii_lower_all(w) } else { lowercase_text(w) };
    match direction_of_word(lw) {
        Some(d) => Some(ClientCommand::Turn(d)),
        None => if w == "ping"@ { Some(ClientCommand::Ping) } else { None },
    }
}

impl ClientMessage {
    /// Parse a client message from a string
    pub fn parse(s: &str) -> (r: Option<ClientMessage>)
        ensures
            match client_command_of(s@) {
                Some(ClientCommand::Turn(d)) => r == Some(ClientMessage::Direction(d)),
                Some(ClientCommand::Ping) => r matches Some(ClientMessage::Ping(p)) && p@ == "pong"@,
                None => r is None,
            },
    {
        let s = trim(s);
        if let Some(dir) = Direction::from_str(s) {
            return Some(ClientMessage::Direction(dir));
        }
        proof {
            reveal_strlit("ping");
            reveal_strlit("pong");
        }
        if str_eq(s, "ping") {
            return Some(ClientMessage::Ping("pong".to_string()));
        }
        None
    }
}

/// Player information for join messages
#[derive(Debug, Clone)]
pub struct PlayerInfo {
    pub id: u32,
    pub color: String,
}

/// Snake body position
#[derive(Debug, Clone, Copy, PartialEq, Eq)]
pub struct SnakePosition {
    pub x: i32,
    pub y: i32,
}

/// Snake body data for update messages
#[derive(Debug, Clone)]
pub struct SnakeData {
    pub id: u32,
    pub color: String,
    pub body: Vec<SnakePosition>,
}

/// Food position data
#[derive(Debug, Clone, Copy, PartialEq, Eq)]
pub struct FoodData {
    pub x: i32,
    pub y: i32,
}

/// Messages sent from server to client
#[derive(Debug, Clone)]
pub enum ServerMessage {
    /// Player joined the game
    Join { data: Vec<PlayerInfo> },
    /// Game state update
    Update { data: Vec<SnakeData>, food: Vec<FoodData> },
    /// Player left the game
    Leave { id: u32 },
    /// Current player died
    Dead,
    /// Current player killed someone
    Kill,
}

} // verus!
