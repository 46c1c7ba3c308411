use simbank::chat::registry::ConnectionRegistry;
use simbank::chat::binary::{
    answer_binary, default_username, format_message, read_input, read_text_frame, rename_notice, welcome, ChatMessage,
    ClientInput, MessageIds, MessageType, TextFrame,
};
use simbank::chat::plain::{
    chat_message, default_username as plain_default_username, join_message, leave_message, message_line, read_line,
    rename_message, welcome_message, TextLine, TextMessageType,
};

#[test]
fn messages_are_numbered_from_one() {
    let mut ids = MessageIds::new();
    let a = ChatMessage::system(&mut ids, "hello");
    let b = ChatMessage::join(&mut ids, "ann");
    let c = ChatMessage::leave(&mut ids, "ann");
    assert_eq!((a.id, b.id, c.id), (1, 2, 3));
    assert_eq!(a.username, "System");
    assert_eq!(b.payload_str(), "ann joined");
    assert_eq!(c.payload_str(), "ann left");
    assert_eq!(c.msg_type, MessageType::Leave);
    assert_eq!(c.room, "general");
}

#[test]
fn payload_round_trips_text() {
    let mut ids = MessageIds::new();
    let m = ChatMessage::new(&mut ids, MessageType::Chat, 4, "bo", "xin chào 👋");
    assert_eq!(m.payload_str(), "xin chào 👋");
    let mut raw = ChatMessage::from_client(&mut ids, MessageType::Chat, "");
    raw.payload = vec![0x66, 0xff, 0x6f];
    assert_eq!(raw.payload_str(), "f\u{fffd}o");
}

#[test]
fn bench_message_names_sender() {
    let m = ChatMessage::chat(42, "x");
    assert_eq!(m.username, "bench_42");
    assert_eq!(m.user_id, 42);
    assert_eq!(m.id, 42);
}

#[test]
fn server_greets_and_renames() {
    let mut ids = MessageIds::new();
    assert_eq!(default_username(17), "user_17");
    let w = welcome(&mut ids, "user_17", 17);
    assert_eq!(w.payload_str(), "Welcome user_17! You are connection #17");
    match read_text_frame("/name /name  Zed  ") {
        TextFrame::Rename(n) => assert_eq!(n, "Zed"),
        _ => panic!("expected a rename"),
    }
    match read_text_frame("hi /name x") {
        TextFrame::Say(t) => assert_eq!(t, "hi /name x"),
        _ => panic!("expected chat"),
    }
    let n = rename_notice(&mut ids, "user_17", "Zed");
    assert_eq!(n.payload_str(), "user_17 is now Zed");
}

#[test]
fn server_answers_binary_frames() {
    let mut ids = MessageIds::new();
    let incoming = ChatMessage::from_client(&mut ids, MessageType::Chat, "yo");
    let out = answer_binary(&mut ids, 5, "eve", &incoming).unwrap();
    assert_eq!(out.user_id, 5);
    assert_eq!(out.username, "eve");
    assert_eq!(out.payload_str(), "yo");
    let ping = ChatMessage::from_client(&mut ids, MessageType::Ping, "");
    let pong = answer_binary(&mut ids, 5, "eve", &ping).unwrap();
    assert_eq!(pong.msg_type, MessageType::Pong);
    let ack = ChatMessage::from_client(&mut ids, MessageType::Ack, "");
    assert!(answer_binary(&mut ids, 5, "eve", &ack).is_none());
}

#[test]
fn client_shows_messages() {
    let mut ids = MessageIds::new();
    let mut m = ChatMessage::new(&mut ids, MessageType::Chat, 1, "amy", "hey");
    m.timestamp = 3_723_000;
    assert_eq!(format_message(&m), "[01:02:03] amy: hey");
    m.msg_type = MessageType::Pong;
    assert_eq!(format_message(&m), "[01:02:03] 🏓 Pong");
    m.msg_type = MessageType::Ack;
    assert_eq!(format_message(&m), "[01:02:03] hey");
}

#[test]
fn client_reads_commands() {
    assert!(matches!(read_input("   "), ClientInput::Skip));
    assert!(matches!(read_input(" /quit\n"), ClientInput::Quit));
    assert!(matches!(read_input("/ping"), ClientInput::Ping));
    match read_input(" hello \n") {
        ClientInput::Say(t) => assert_eq!(t, "hello"),
        _ => panic!("expected chat"),
    }
}

#[test]
fn plain_chat_texts() {
    assert_eq!(plain_default_username(50123), "User_50123");
    assert_eq!(join_message("A", "t").content, "A has joined the chat!");
    assert_eq!(welcome_message("A", "t").content, "Welcome to the chat, A! Type your messages to chat.");
    assert_eq!(leave_message("A", "t").message_type, TextMessageType::Leave);
    assert_eq!(rename_message("A", "B", "t").content, "A is now known as B");
    assert!(matches!(read_line("/name   "), TextLine::Ignore));
    assert!(matches!(read_line("hello"), TextLine::Say));
    match read_line("/name Bob") {
        TextLine::Rename(n) => assert_eq!(n, "Bob"),
        _ => panic!("expected a rename"),
    }
    let m = chat_message("A", "hi", "10:00:00");
    assert_eq!(message_line(&m), "\r[10:00:00] A: hi");
    assert_eq!(message_line(&join_message("A", "10:00:01")), "\r[10:00:01] 🟢 A has joined the chat!");
}

#[test]
fn registry_numbers_names_and_counts_connections() {
    let mut reg = ConnectionRegistry::new();
    let a = reg.register();
    let b = reg.register();
    assert_eq!((a, b), (1, 2));
    assert_eq!(reg.count(), 2);
    assert_eq!(reg.get_username(a), Some("user_1".to_string()));
    assert_eq!(reg.set_username(b, "bob".to_string()), Some("user_2".to_string()));
    assert_eq!(reg.get_username(b), Some("bob".to_string()));
    assert_eq!(reg.set_username(9, "ghost".to_string()), None);
    assert_eq!(reg.unregister(b), Some("bob".to_string()));
    assert_eq!(reg.unregister(b), None);
    assert_eq!(reg.count(), 1);
    assert_eq!(reg.get_username(b), None);
}
