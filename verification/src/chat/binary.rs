//! The binary chat protocol: its messages, what the server answers to each
//! frame a connection sends, and how a client shows a message.
use vstd::prelude::*;
use vstd::string::StringExecFns;
use vstd::string::StrSliceExecFns;
use vstd::utf8::encode_utf8;
use crate::clock::{lemma_plain_patterns, format_time, now_millis, time_text};
use crate::text::{concat_str, decimal_digits, push_decimal, starts_with, strip_all_prefix, has_prefix,
    trim, trim_start_matches, trimmed_text};

verus! {

/// The kinds of message.
#[derive(Debug, Clone, Copy, PartialEq, Eq, Structural)]
pub enum MessageType {
    Chat,
    Join,
    Leave,
    System,
    Ping,
    Pong,
    Ack,
}

/// A message of the binary protocol.
#[derive(Debug)]
pub struct ChatMessage {
    /// The message's number
    pub id: u64,
    /// The kind of message
    pub msg_type: MessageType,
    /// The sender's number (0 for the system)
    pub user_id: u64,
    /// The sender's name
    pub username: String,
    /// The content, as UTF-8 bytes
    pub payload: Vec<u8>,
    /// When it was made, in milliseconds since the Unix epoch
    pub timestamp: i64,
    /// The room
    pub room: String,
}

/// The source of message numbers, counting up from one.
#[derive(Debug)]
pub struct MessageIds {
    next: u64,
}

/// The counter after one step: up by one, wrapping at the top as an
/// atomic counter does.
pub open spec fn next_count(n: u64) -> u64 {
    if n == u64::MAX { 0 } else { (n + 1) as u64 }
}

/// The counter after `k` steps from `n`.
pub open spec fn count_after(n: u64, k: nat) -> u64
    decreases k,
{
    if k == 0 { n } else { next_count(count_after(n, (k - 1) as nat)) }
}

proof fn lemma_count_after(n: u64, k: nat)
    ensures
        count_after(n, k) as int == (n + k) % 0x1_0000_0000_0000_0000,
    decreases k,
{
    if k > 0 {
        lemma_count_after(n, (k - 1) as nat);
    }
}

/// Messages numbered in turn get different numbers until the counter has
/// gone all the way round: steps `i < j` less than 2^64 apart give
/// different numbers.
pub proof fn lemma_numbers_distinct(n: u64, i: nat, j: nat)
    requires
        i < j,
        j - i < 0x1_0000_0000_0000_0000,
    ensures
        count_after(n, i) != count_after(n, j),
{
    lemma_count_after(n, i);
    lemma_count_after(n, j);
    let m = 0x1_0000_0000_0000_0000int;
    assert((n + i) % m != (n + j) % m) by (nonlinear_arith)
        requires
            0 < j - i < m,
            m > 0,
            i >= 0,
            n >= 0,
    {
        if (n + i) % m == (n + j) % m {
            vstd::arithmetic::div_mod::lemma_fundamental_div_mod(n + i, m);
            vstd::arithmetic::div_mod::lemma_fundamental_div_mod(n + j, m);
        }
    }
}

impl MessageIds {
    /// The number the next message takes.
    pub closed spec fn counter(&self) -> u64 {
        self.next
    }

    /// Numbers from one on.
    pub fn new() -> (r: MessageIds)
        ensures
            r.counter() == 1,
    {
        MessageIds { next: 1 }
    }

    /// Takes the next number.
    pub fn take(&mut self) -> (r: u64)
        ensures
            r == old(self).counter(),
            final(self).counter() == next_count(old(self).counter()),
    {
        let id = self.next;
        self.next = self.next.wrapping_add(1);
        id
    }
}

/// What `String::from_utf8_lossy` returns for some bytes.
pub uninterp spec fn utf8_lossy_text(bytes: Seq<u8>) -> Seq<char>;

/// `String::from_utf8_lossy`: the text of UTF-8 bytes, each invalid
/// sequence replaced by U+FFFD. The result is named; for the bytes of a
/// text it is that text, as the documentation says of valid UTF-8.
#[verifier::external_body]
fn from_utf8_lossy(bytes: &Vec<u8>) -> (r: String)
    ensures
        r@ == utf8_lossy_text(bytes@),
        forall|t: Seq<char>| bytes@ == encode_utf8(t) ==> r@ == t,
{
    String::from_utf8_lossy(bytes).to_string()
}

/// A message with the given values, made now.
pub open spec fn message_is(m: ChatMessage, id: u64, msg_type: MessageType, user_id: u64, username: Seq<char>,
    payload: Seq<char>) -> bool
{
    &&& m.id == id
    &&& m.msg_type == msg_type
    &&& m.user_id == user_id
    &&& m.username@ == username
    &&& m.payload@ == encode_utf8(payload)
    &&& m.room@ == "general"@
}

impl ChatMessage {
    /// A message in the general room, numbered from the counter.
    pub fn new(ids: &mut MessageIds, msg_type: MessageType, user_id: u64, username: &str, payload: &str)
        -> (r: ChatMessage)
        ensures
            message_is(r, old(ids).counter(), msg_type, user_id, username@, payload@),
            final(ids).counter() == next_count(old(ids).counter()),
    {
        proof { reveal_strlit("general"); }
        ChatMessage {
            id: ids.take(),
            msg_type,
            user_id,
            username: username.to_string(),
            payload: payload.as_bytes_vec(),
            timestamp: now_millis(),
            room: String::from_str("general"),
        }
    }

    /// A client's message: no sender yet, in the general room.
    pub fn from_client(ids: &mut MessageIds, msg_type: MessageType, payload: &str) -> (r: ChatMessage)
        ensures
            message_is(r, old(ids).counter(), msg_type, 0, Seq::empty(), payload@),
            final(ids).counter() == next_count(old(ids).counter()),
    {
        proof { reveal_strlit(""); assert(""@ =~= Seq::<char>::empty()); }
        Self::new(ids, msg_type, 0, "", payload)
    }

    /// A benchmark client's chat message: numbered and sent by `id`, named
    /// `bench_<id>`.
    pub fn chat(id: u64, payload: &str) -> (r: ChatMessage)
        ensures
            message_is(r, id, MessageType::Chat, id, "bench_"@ + decimal_digits(id as nat), payload@),
    {
        proof { reveal_strlit("general"); reveal_strlit("bench_"); }
        let mut name = String::from_str("bench_");
        push_decimal(&mut name, id);
        ChatMessage {
            id,
            msg_type: MessageType::Chat,
            user_id: id,
            username: name,
            payload: payload.as_bytes_vec(),
            timestamp: now_millis(),
            room: String::from_str("general"),
        }
    }

    /// A notice from the system.
    pub fn system(ids: &mut MessageIds, content: &str) -> (r: ChatMessage)
        ensures
            message_is(r, old(ids).counter(), MessageType::System, 0, "System"@, content@),
            final(ids).counter() == next_count(old(ids).counter()),
    {
        proof { reveal_strlit("System"); }
        Self::new(ids, MessageType::System, 0, "System", content)
    }

    /// The notice that someone joined: "<name> joined".
    pub fn join(ids: &mut MessageIds, username: &str) -> (r: ChatMessage)
        ensures
            message_is(r, old(ids).counter(), MessageType::Join, 0, "System"@, username@ + " joined"@),
            final(ids).counter() == next_count(old(ids).counter()),
    {
        proof { reveal_strlit("System"); reveal_strlit(" joined"); }
        let text = concat_str(username, " joined");
        Self::new(ids, MessageType::Join, 0, "System", text.as_str())
    }

    /// The notice that someone left: "<name> left".
    pub fn leave(ids: &mut MessageIds, username: &str) -> (r: ChatMessage)
        ensures
            message_is(r, old(ids).counter(), MessageType::Leave, 0, "System"@, username@ + " left"@),
            final(ids).counter() == next_count(old(ids).counter()),
    {
        proof { reveal_strlit("System"); reveal_strlit(" left"); }
        let text = concat_str(username, " left");
        Self::new(ids, MessageType::Leave, 0, "System", text.as_str())
    }

    /// The content as text; invalid UTF-8 sequences become U+FFFD.
    pub fn payload_str(&self) -> (r: String)
        ensures
            r@ == utf8_lossy_text(self.payload@),
            forall|t: Seq<char>| self.payload@ == encode_utf8(t) ==> r@ == t,
    {
        from_utf8_lossy(&self.payload)
    }
}

// ---------------------------------------------------------------------------
// The server
// ---------------------------------------------------------------------------

/// The name a connection starts with: `user_<id>`.
pub open spec fn default_username_text(id: u64) -> Seq<char> {
    "user_"@ + decimal_digits(id as nat)
}

/// The name a connection starts with.
pub fn default_username(id: u64) -> (r: String)
    ensures
        r@ == default_username_text(id),
{
    proof { reveal_strlit("user_"); }
    let mut s = String::from_str("user_");
    push_decimal(&mut s, id);
    s
}

/// The welcome a connection gets: "Welcome <name>! You are connection #<id>".
pub fn welcome(ids: &mut MessageIds, username: &str, id: u64) -> (r: ChatMessage)
    ensures
        message_is(r, old(ids).counter(), MessageType::System, 0, "System"@,
            "Welcome "@ + username@ + "! You are connection #"@ + decimal_digits(id as nat)),
        final(ids).counter() == next_count(old(ids).counter()),
{
    proof { reveal_strlit("Welcome "); reveal_strlit("! You are connection #"); }
    let mut s = concat_str("Welcome ", username);
    s.append("! You are connection #");
    push_decimal(&mut s, id);
    ChatMessage::system(ids, s.as_str())
}

/// What the server makes of a text frame.
#[derive(Debug)]
pub enum TextFrame {
    /// A change of name, to this name
    Rename(String),
    /// A line of chat, with this text
    Say(String),
}

/// The name a `/name` command asks for: what follows the leading
/// `/name ` prefixes, trimmed.
pub open spec fn requested_name(text: Seq<char>) -> Seq<char> {
    trimmed_text(strip_all_prefix(text, "/name "@))
}

/// What a text frame asks: a rename when it begins with `/name `, a line
/// of chat otherwise.
pub fn read_text_frame(text: &str) -> (r: TextFrame)
    ensures
        has_prefix(text@, "/name "@) ==> (r matches TextFrame::Rename(n) && n@ == requested_name(text@)),
        !has_prefix(text@, "/name "@) ==> (r matches TextFrame::Say(t) && t@ == text@),
{
    if starts_with(text, "/name ") {
        let name = trim(trim_start_matches(text, "/name "));
        TextFrame::Rename(name.to_string())
    } else {
        TextFrame::Say(text.to_string())
    }
}

/// The notice broadcast after a rename: "<old> is now <new>".
pub fn rename_notice(ids: &mut MessageIds, old_name: &str, new_name: &str) -> (r: ChatMessage)
    ensures
        message_is(r, old(ids).counter(), MessageType::System, 0, "System"@, old_name@ + " is now "@ + new_name@),
        final(ids).counter() == next_count(old(ids).counter()),
{
    proof { reveal_strlit(" is now "); }
    let mut s = concat_str(old_name, " is now ");
    s.append(new_name);
    ChatMessage::system(ids, s.as_str())
}

/// The line of chat a connection's text becomes: sent by the connection,
/// under its current name.
pub fn chat_line(ids: &mut MessageIds, conn_id: u64, username: &str, text: &str) -> (r: ChatMessage)
    ensures
        message_is(r, old(ids).counter(), MessageType::Chat, conn_id, username@, text@),
        final(ids).counter() == next_count(old(ids).counter()),
{
    ChatMessage::new(ids, MessageType::Chat, conn_id, username, text)
}

/// What the server broadcasts for a binary message a connection sent: a
/// chat message is sent on under the connection's number and current name;
/// a ping is answered by a pong; other kinds are dropped.
pub fn answer_binary(ids: &mut MessageIds, conn_id: u64, username: &str, msg: &ChatMessage)
    -> (r: Option<ChatMessage>)
    ensures
        msg.msg_type == MessageType::Chat ==> (r matches Some(m)
            && message_is(m, old(ids).counter(), MessageType::Chat, conn_id, username@, utf8_lossy_text(msg.payload@))
            && final(ids).counter() == next_count(old(ids).counter())),
        msg.msg_type == MessageType::Ping ==> (r matches Some(m)
            && message_is(m, old(ids).counter(), MessageType::Pong, conn_id, Seq::empty(), Seq::empty())
            && final(ids).counter() == next_count(old(ids).counter())),
        msg.msg_type != MessageType::Chat && msg.msg_type != MessageType::Ping
            ==> r is None && final(ids).counter() == old(ids).counter(),
{
    match msg.msg_type {
        MessageType::Chat => {
            let text = msg.payload_str();
            Some(ChatMessage::new(ids, MessageType::Chat, conn_id, username, text.as_str()))
        },
        MessageType::Ping => {
            proof { reveal_strlit(""); assert(""@ =~= Seq::<char>::empty()); }
            Some(ChatMessage::new(ids, MessageType::Pong, conn_id, "", ""))
        },
        _ => None,
    }
}

// ---------------------------------------------------------------------------
// The client
// ---------------------------------------------------------------------------

/// How a client shows a message, after its time as `%H:%M:%S`.
pub open spec fn shown_text(m: ChatMessage) -> Seq<char> {
    let time = "["@ + time_text(m.timestamp, "%H:%M:%S"@) + "] "@;
    let body = utf8_lossy_text(m.payload@);
    match m.msg_type {
        MessageType::Chat => time + m.username@ + ": "@ + body,
        MessageType::Join => time + "🟢 "@ + body,
        MessageType::Leave => time + "🔴 "@ + body,
        MessageType::System => time + "ℹ️  "@ + body,
        MessageType::Pong => time + "🏓 Pong"@,
        _ => time + body,
    }
}

/// The line a client prints for a message.
pub fn format_message(msg: &ChatMessage) -> (r: String)
    ensures
        r@ == shown_text(*msg),
{
    proof {
        reveal_strlit("[");
        reveal_strlit("] ");
        reveal_strlit(": ");
        reveal_strlit("🟢 ");
        reveal_strlit("🔴 ");
        reveal_strlit("ℹ️  ");
        reveal_strlit("🏓 Pong");
    }
    let mut s = String::from_str("[");
    proof { lemma_plain_patterns(); }
    s.append(format_time(msg.timestamp, "%H:%M:%S").as_str());
    s.append("] ");
    match msg.msg_type {
        MessageType::Chat => {
            s.append(msg.username.as_str());
            s.append(": ");
            s.append(msg.payload_str().as_str());
        },
        MessageType::Join => {
            s.append("🟢 ");
            s.append(msg.payload_str().as_str());
        },
        MessageType::Leave => {
            s.append("🔴 ");
            s.append(msg.payload_str().as_str());
        },
        MessageType::System => {
            s.append("ℹ️  ");
            s.append(msg.payload_str().as_str());
        },
        MessageType::Pong => {
            s.append("🏓 Pong");
        },
        _ => {
            s.append(msg.payload_str().as_str());
        },
    }
    s
}

/// What a client does with a line typed by its user.
#[derive(Debug)]
pub enum ClientInput {
    /// Nothing: the line is blank
    Skip,
    /// Close the connection
    Quit,
    /// Send a ping
    Ping,
    /// Send a line of chat, with this text
    Say(String),
}

/// What a typed line asks, once trimmed: nothing when blank, to quit on
/// `/quit`, a ping on `/ping`, otherwise a line of chat.
pub fn read_input(line: &str) -> (r: ClientInput)
    ensures
        trimmed_text(line@).len() == 0 ==> r is Skip,
        trimmed_text(line@) == "/quit"@ ==> r is Quit,
        trimmed_text(line@) == "/ping"@ ==> r is Ping,
        trimmed_text(line@).len() > 0 && trimmed_text(line@) != "/quit"@ && trimmed_text(line@) != "/ping"@
            ==> (r matches ClientInput::Say(t) && t@ == trimmed_text(line@)),
{
    proof {
        reveal_strlit("/quit");
        reveal_strlit("/ping");
        assert("/ping"@ != "/quit"@) by {
            assert("/ping"@[1] == 'p');
            assert("/quit"@[1] == 'q');
        }
    }
    let input = trim(line);
    if input.unicode_len() == 0 {
        ClientInput::Skip
    } else if crate::text::str_eq(input, "/quit") {
        ClientInput::Quit
    } else if crate::text::str_eq(input, "/ping") {
        ClientInput::Ping
    } else {
        ClientInput::Say(input.to_string())
    }
}

} // verus!
