//! The plain text chat: JSON messages with a name, a content and a time
//! of day; what the server answers to each line, and how a client shows a
//! message.
use vstd::prelude::*;
use vstd::string::StringExecFns;
use crate::text::{concat_str, decimal_digits, has_prefix, push_decimal, starts_with, strip_all_prefix, trim,
    trim_start_matches, trimmed_text};

verus! {

/// The kinds of message.
#[derive(Debug, Clone, Copy, PartialEq, Eq, Structural)]
pub enum TextMessageType {
    Chat,
    Join,
    Leave,
    System,
}

/// A message of the plain text chat.
#[derive(Debug)]
pub struct TextMessage {
    /// The sender's name
    pub username: String,
    /// The content
    pub content: String,
    /// The time of day it was sent, as `%H:%M:%S`
    pub timestamp: String,
    /// The kind of message
    pub message_type: TextMessageType,
}

/// A message with the given texts.
pub open spec fn text_message_is(m: TextMessage, username: Seq<char>, content: Seq<char>, timestamp: Seq<char>,
    t: TextMessageType) -> bool
{
    &&& m.username@ == username
    &&& m.content@ == content
    &&& m.timestamp@ == timestamp
    &&& m.message_type == t
}

fn system_message(content: String, timestamp: &str, t: TextMessageType) -> (r: TextMessage)
    ensures
        text_message_is(r, "System"@, content@, timestamp@, t),
{
    proof { reveal_strlit("System"); }
    TextMessage {
        username: String::from_str("System"),
        content,
        timestamp: timestamp.to_string(),
        message_type: t,
    }
}

/// The name a client starts with: `User_<port>`.
pub fn default_username(port: u16) -> (r: String)
    ensures
        r@ == "User_"@ + decimal_digits(port as nat),
{
    proof { reveal_strlit("User_"); }
    let mut s = String::from_str("User_");
    push_decimal(&mut s, port as u64);
    s
}

/// The notice that a client joined: "<name> has joined the chat!".
pub fn join_message(username: &str, timestamp: &str) -> (r: TextMessage)
    ensures
        text_message_is(r, "System"@, username@ + " has joined the chat!"@, timestamp@, TextMessageType::Join),
{
    proof { reveal_strlit(" has joined the chat!"); }
    system_message(concat_str(username, " has joined the chat!"), timestamp, TextMessageType::Join)
}

/// The welcome a client gets:
/// "Welcome to the chat, <name>! Type your messages to chat.".
pub fn welcome_message(username: &str, timestamp: &str) -> (r: TextMessage)
    ensures
        text_message_is(r, "System"@,
            "Welcome to the chat, "@ + username@ + "! Type your messages to chat."@, timestamp@,
            TextMessageType::System),
{
    proof {
        reveal_strlit("Welcome to the chat, ");
        reveal_strlit("! Type your messages to chat.");
    }
    let mut c = concat_str("Welcome to the chat, ", username);
    c.append("! Type your messages to chat.");
    system_message(c, timestamp, TextMessageType::System)
}

/// The notice that a client left: "<name> has left the chat.".
pub fn leave_message(username: &str, timestamp: &str) -> (r: TextMessage)
    ensures
        text_message_is(r, "System"@, username@ + " has left the chat."@, timestamp@, TextMessageType::Leave),
{
    proof { reveal_strlit(" has left the chat."); }
    system_message(concat_str(username, " has left the chat."), timestamp, TextMessageType::Leave)
}

/// The notice of a rename: "<old> is now known as <new>".
pub fn rename_message(old_name: &str, new_name: &str, timestamp: &str) -> (r: TextMessage)
    ensures
        text_message_is(r, "System"@, old_name@ + " is now known as "@ + new_name@, timestamp@,
            TextMessageType::System),
{
    proof { reveal_strlit(" is now known as "); }
    let mut c = concat_str(old_name, " is now known as ");
    c.append(new_name);
    system_message(c, timestamp, TextMessageType::System)
}

/// What the server makes of a line a client sent.
#[derive(Debug)]
pub enum TextLine {
    /// A change of name, to this (non-empty) name
    Rename(String),
    /// A `/name` command with no name: nothing happens
    Ignore,
    /// A line of chat
    Say,
}

/// What a line asks: with the `/name ` prefix, a rename to what follows the
/// leading prefixes, trimmed, unless that is empty; otherwise a line of chat.
pub fn read_line(text: &str) -> (r: TextLine)
    ensures
        has_prefix(text@, "/name "@) && trimmed_text(strip_all_prefix(text@, "/name "@)).len() > 0
            ==> (r matches TextLine::Rename(n) && n@ == trimmed_text(strip_all_prefix(text@, "/name "@))),
        has_prefix(text@, "/name "@) && trimmed_text(strip_all_prefix(text@, "/name "@)).len() == 0
            ==> r is Ignore,
        !has_prefix(text@, "/name "@) ==> r is Say,
{
    if starts_with(text, "/name ") {
        let name = trim(trim_start_matches(text, "/name "));
        if name.unicode_len() > 0 {
            TextLine::Rename(name.to_string())
        } else {
            TextLine::Ignore
        }
    } else {
        TextLine::Say
    }
}

/// A line of chat from a client.
pub fn chat_message(username: &str, content: &str, timestamp: &str) -> (r: TextMessage)
    ensures
        text_message_is(r, username@, content@, timestamp@, TextMessageType::Chat),
{
    TextMessage {
        username: username.to_string(),
        content: content.to_string(),
        timestamp: timestamp.to_string(),
        message_type: TextMessageType::Chat,
    }
}

/// How a client shows a message (after a carriage return).
pub open spec fn text_shown(m: TextMessage) -> Seq<char> {
    let time = "\r["@ + m.timestamp@ + "] "@;
    match m.message_type {
        TextMessageType::Chat => time + m.username@ + ": "@ + m.content@,
        TextMessageType::Join => time + "🟢 "@ + m.content@,
        TextMessageType::Leave => time + "🔴 "@ + m.content@,
        TextMessageType::System => time + "ℹ️  "@ + m.content@,
    }
}

/// The line a client prints for a message.
pub fn message_line(msg: &TextMessage) -> (r: String)
    ensures
        r@ == text_shown(*msg),
{
    proof {
        reveal_strlit("\r[");
        reveal_strlit("] ");
        reveal_strlit(": ");
        reveal_strlit("🟢 ");
        reveal_strlit("🔴 ");
        reveal_strlit("ℹ️  ");
    }
    let mut s = concat_str("\r[", msg.timestamp.as_str());
    s.append("] ");
    match msg.message_type {
        TextMessageType::Chat => {
            s.append(msg.username.as_str());
            s.append(": ");
        },
        TextMessageType::Join => {
            s.append("🟢 ");
        },
        TextMessageType::Leave => {
            s.append("🔴 ");
        },
        TextMessageType::System => {
            s.append("ℹ️  ");
        },
    }
    s.append(msg.content.as_str());
    s
}

} // verus!
