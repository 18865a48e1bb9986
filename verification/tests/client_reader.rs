use tcp_chat::client_reader::{ClientReader, ReaderAction, ReaderEvent};
use tcp_chat::message::ServerMessage;

fn line(text: &str) -> ReaderEvent {
    ReaderEvent::Line {
        bytes: text.len(),
        line: text.to_string(),
        timestamp: "2024-02-29 08:05:00".to_string(),
    }
}

fn words(action: &ReaderAction) -> String {
    match action {
        ReaderAction::Send(ServerMessage::Broadcast { from_id, text, timestamp }) => {
            format!("said {} {} {}", from_id, text, timestamp)
        }
        ReaderAction::Send(ServerMessage::ClientJoined { id, timestamp }) => {
            format!("joined {} {}", id, timestamp)
        }
        ReaderAction::Send(ServerMessage::ClientLeft { id, timestamp }) => {
            format!("left {} {}", id, timestamp)
        }
        ReaderAction::ReadLine => "read".to_string(),
        ReaderAction::Finish => "finish".to_string(),
        ReaderAction::Fail(reason) => format!("fail {}", reason),
    }
}

fn go_on(reader: &mut ClientReader, event: ReaderEvent) -> String {
    assert!(reader.is_expected(&event));
    let (next, action) = reader.step(event);
    *reader = next;
    words(&action)
}

#[test]
fn whole_conversation_is_passed_on() {
    let (mut reader, first) = ClientReader::start(42, "t0".to_string());
    assert_eq!(words(&first), "joined 42 t0");
    assert_eq!(go_on(&mut reader, ReaderEvent::Sent), "read");
    assert_eq!(go_on(&mut reader, line("hello\r\n")), "said 42 hello 2024-02-29 08:05:00");
    assert_eq!(go_on(&mut reader, ReaderEvent::Sent), "read");
    assert_eq!(go_on(&mut reader, line("\n")), "read");
    assert_eq!(go_on(&mut reader, line("\r\n")), "read");
    assert_eq!(go_on(&mut reader, line("  \n")), "read");
    assert_eq!(go_on(&mut reader, line("  a b \n")), "said 42   a b  2024-02-29 08:05:00");
    assert_eq!(go_on(&mut reader, ReaderEvent::Sent), "read");
    assert_eq!(go_on(&mut reader, line("no line end")), "said 42 no line end 2024-02-29 08:05:00");
    assert_eq!(go_on(&mut reader, ReaderEvent::Sent), "read");
    assert_eq!(go_on(&mut reader, line("")), "left 42 2024-02-29 08:05:00");
    assert_eq!(go_on(&mut reader, ReaderEvent::Sent), "finish");
    assert_eq!(reader, ClientReader::Ended { id: 42 });
    assert!(!reader.is_expected(&ReaderEvent::Sent));
    assert!(!reader.is_expected(&line("x\n")));
}

#[test]
fn refused_join_is_the_end() {
    let mut reader = ClientReader::Joining { id: 1 };
    let event = ReaderEvent::Refused("sending on a closed channel".to_string());
    assert_eq!(
        go_on(&mut reader, event),
        "fail failed to send join msg: sending on a closed channel"
    );
    assert_eq!(reader, ClientReader::Ended { id: 1 });
}

#[test]
fn refused_broadcast_is_the_end() {
    let mut reader = ClientReader::Relaying { id: 1 };
    let event = ReaderEvent::Refused("sending on a closed channel".to_string());
    assert_eq!(
        go_on(&mut reader, event),
        "fail failed to send broadcast msg: sending on a closed channel"
    );
    assert_eq!(reader, ClientReader::Ended { id: 1 });
}

#[test]
fn refused_departure_does_not_matter() {
    let mut reader = ClientReader::Leaving { id: 1 };
    assert_eq!(go_on(&mut reader, ReaderEvent::Refused("closed".to_string())), "finish");
    assert_eq!(reader, ClientReader::Ended { id: 1 });
}

#[test]
fn failed_read_is_the_end_without_a_departure() {
    let mut reader = ClientReader::Reading { id: 1 };
    let event = ReaderEvent::Failed("connection reset".to_string());
    assert_eq!(go_on(&mut reader, event), "fail connection reset");
    assert_eq!(reader, ClientReader::Ended { id: 1 });
}

#[test]
fn start_now_and_line_now_take_the_time() {
    let (reader, action) = ClientReader::start_now(8);
    assert_eq!(reader, ClientReader::Joining { id: 8 });
    let ReaderAction::Send(ServerMessage::ClientJoined { id, timestamp }) = action else {
        panic!("no news of the client");
    };
    assert_eq!(id, 8);
    assert_eq!(timestamp.len(), 19);
    let ReaderEvent::Line { bytes, line, timestamp } = ReaderEvent::line_now(3, "hi\n".to_string())
    else {
        panic!("no line");
    };
    assert_eq!((bytes, line.as_str(), timestamp.len()), (3, "hi\n", 19));
}

#[test]
fn expects_what_its_action_can_bring() {
    let sent = ReaderEvent::Sent;
    let refused = ReaderEvent::Refused(String::new());
    let failed = ReaderEvent::Failed(String::new());
    for reader in [
        ClientReader::Joining { id: 1 },
        ClientReader::Relaying { id: 1 },
        ClientReader::Leaving { id: 1 },
    ] {
        assert!(reader.is_expected(&sent) && reader.is_expected(&refused));
        assert!(!reader.is_expected(&failed) && !reader.is_expected(&line("x")));
    }
    let reading = ClientReader::Reading { id: 1 };
    assert!(reading.is_expected(&failed) && reading.is_expected(&line("x")));
    assert!(!reading.is_expected(&sent) && !reading.is_expected(&refused));
}

#[test]
fn blanks_are_passed_over() {
    let t = "2024-01-02 03:04:05";
    let read = |text: &str| ReaderEvent::Line {
        bytes: text.len(),
        line: text.to_string(),
        timestamp: t.to_string(),
    };
    let (mut reader, first) = ClientReader::start(7, t.to_string());
    assert_eq!(words(&first), "joined 7 2024-01-02 03:04:05");
    assert_eq!(go_on(&mut reader, ReaderEvent::Sent), "read");
    assert_eq!(go_on(&mut reader, read("   \n")), "read");
    assert_eq!(go_on(&mut reader, read("hi\n")), "said 7 hi 2024-01-02 03:04:05");
    assert_eq!(go_on(&mut reader, ReaderEvent::Sent), "read");
    assert_eq!(go_on(&mut reader, read("")), "left 7 2024-01-02 03:04:05");
    assert_eq!(go_on(&mut reader, ReaderEvent::Sent), "finish");
    for blank in [" ", "\t\n", " \u{3000} \r\n", "\r\n", "\n"] {
        let mut reader = ClientReader::Reading { id: 7 };
        assert_eq!(go_on(&mut reader, read(blank)), "read");
        assert_eq!(reader, ClientReader::Reading { id: 7 });
    }
}
