use std::io::{BufRead, BufReader};
use tcp_chat::client::{hear, ChatClient, ClientAction, ClientEvent, Heard};
use tcp_chat::client_reader::{ClientReader, ReaderAction, ReaderEvent};

/// What the reader of client 9 makes of the first line of a stream.
fn read_first(stream: &str) -> (ReaderAction, String) {
    let mut reader = BufReader::new(stream.as_bytes());
    let mut line = String::new();
    let bytes = reader.read_line(&mut line).unwrap();
    let timestamp = "2024-02-29 08:05:00".to_string();
    let event = ReaderEvent::Line { bytes, line: line.clone(), timestamp };
    (ClientReader::Reading { id: 9 }.step(event).1, line)
}

fn sent(typed: &str) -> String {
    let step = ChatClient::Typing.step(ClientEvent::Typed { line: typed.to_string() });
    let ClientAction::Send { line } = step.action else {
        panic!("nothing sent");
    };
    line
}

#[test]
fn typed_line_is_shown_to_the_others() {
    let stream = format!("{}{}", sent("  hello \r there\t"), sent("next"));
    let (action, line) = read_first(&stream);
    assert_eq!(line, "hello \r there\n");
    let ReaderAction::Send(message) = action else {
        panic!("nothing passed on");
    };
    let told = format!("{}{}", message.announcement(), message.announcement());
    let mut reader = BufReader::new(told.as_bytes());
    let mut line = String::new();
    let bytes = reader.read_line(&mut line).unwrap();
    let Heard::Show(shown) = hear(bytes, line) else {
        panic!("nothing shown");
    };
    assert_eq!(shown, "[2024-02-29 08:05:00] Client:9: hello \r there\n");
}

#[test]
fn blank_line_is_passed_over() {
    let (action, line) = read_first(&format!("{}{}", sent(" \t "), sent("next")));
    assert_eq!(line, "\n");
    assert!(matches!(action, ReaderAction::ReadLine));
}
