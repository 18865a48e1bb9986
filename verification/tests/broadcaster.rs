use tcp_chat::broadcaster::{Broadcaster, BroadcasterAction, BroadcasterEvent};
use tcp_chat::message::ServerMessage;
use tcp_chat::roster::{Client, Roster};

fn words(action: &BroadcasterAction) -> String {
    match action {
        BroadcasterAction::Receive => "receive".to_string(),
        BroadcasterAction::Remove { id } => format!("remove {}", id),
        BroadcasterAction::Open { untold } => format!("open {:?}", untold),
        BroadcasterAction::Write { place, text } => format!("write {} {}", place, text),
        BroadcasterAction::Finish => "finish".to_string(),
        BroadcasterAction::Fail(reason) => format!("fail {}", reason),
    }
}

fn go_on(
    broadcaster: Broadcaster,
    event: BroadcasterEvent,
) -> (Broadcaster, Option<String>, String) {
    assert!(broadcaster.is_expected(&event));
    let step = broadcaster.step(event);
    let action = words(&step.action);
    (step.next, step.log, action)
}

fn said() -> BroadcasterEvent {
    BroadcasterEvent::Message(ServerMessage::Broadcast {
        from_id: 5,
        text: "hi".to_string(),
        timestamp: "2024-02-29 08:05:00".to_string(),
    })
}

fn joined(id: i32) -> BroadcasterEvent {
    BroadcasterEvent::Message(ServerMessage::ClientJoined { id, timestamp: "t".to_string() })
}

fn left(id: i32) -> BroadcasterEvent {
    BroadcasterEvent::Message(ServerMessage::ClientLeft { id, timestamp: "t".to_string() })
}

fn roster(ids: &[i32]) -> Roster<usize> {
    let mut roster = Roster::new();
    for (i, id) in ids.iter().enumerate() {
        roster.join(Client { id: *id, addr: format!("h:{}", id), writer: i });
    }
    roster
}

/// Runs one message against a roster. Gives back the log, and what each write was.
fn run(roster: &mut Roster<usize>, event: BroadcasterEvent) -> (Vec<String>, Vec<(i32, String)>) {
    let mut broadcaster = Broadcaster::Receiving;
    let mut event = event;
    let mut logged = Vec::new();
    let mut written = Vec::new();
    loop {
        assert!(broadcaster.is_expected(&event));
        let step = broadcaster.step(event);
        if let Some(entry) = step.log {
            logged.push(entry);
        }
        broadcaster = step.next;
        event = match step.action {
            BroadcasterAction::Receive => return (logged, written),
            BroadcasterAction::Remove { id } => BroadcasterEvent::Removed { live: roster.leave(id) },
            BroadcasterAction::Open { untold } => {
                BroadcasterEvent::Opened { places: roster.told_places(untold) }
            }
            BroadcasterAction::Write { place, text } => {
                written.push((roster.client(place).id, text));
                BroadcasterEvent::Written
            }
            BroadcasterAction::Finish => panic!("finished"),
            BroadcasterAction::Fail(reason) => panic!("{}", reason),
        };
    }
}

#[test]
fn broadcast_reaches_everyone_but_the_sender() {
    let text = "[2024-02-29 08:05:00] Client:5: hi\n".to_string();
    let (logged, written) = run(&mut roster(&[4, 5, 6]), said());
    assert_eq!(logged, vec!["Received from Client:5: hi"]);
    assert_eq!(written, vec![(4, text.clone()), (6, text)]);
}

#[test]
fn join_reaches_everyone_but_the_joiner() {
    let text = "Server: Client:6 joined the chat\n".to_string();
    let (logged, written) = run(&mut roster(&[4, 5, 6]), joined(6));
    assert_eq!(logged, vec!["Client joined: Client:6 "]);
    assert_eq!(written, vec![(4, text.clone()), (5, text)]);
}

#[test]
fn departure_reaches_all_that_are_left() {
    let mut clients = roster(&[4, 5, 6]);
    let text = "Server: Client:5 left the chat\n".to_string();
    let (logged, written) = run(&mut clients, left(5));
    assert_eq!(logged, vec!["Client disconnected: Client:5", "Total number of clients live: 2"]);
    assert_eq!(written, vec![(4, text.clone()), (6, text)]);
    let (_, written) = run(&mut clients, said());
    assert_eq!(written.iter().map(|w| w.0).collect::<Vec<i32>>(), vec![4, 6]);
}

#[test]
fn nobody_is_there_to_be_told() {
    let (_, written) = run(&mut roster(&[5]), said());
    assert!(written.is_empty());
    let (logged, written) = run(&mut roster(&[5]), left(5));
    assert_eq!(logged[1], "Total number of clients live: 0");
    assert!(written.is_empty());
}

#[test]
fn one_message_step_by_step() {
    let (b, log, action) = go_on(Broadcaster::Receiving, left(7));
    assert_eq!(log, Some("Client disconnected: Client:7".to_string()));
    assert_eq!(action, "remove 7");
    let (b, log, action) = go_on(b, BroadcasterEvent::Removed { live: 2 });
    assert_eq!(log, Some("Total number of clients live: 2".to_string()));
    assert_eq!(action, "open None");
    let (b, log, action) = go_on(b, BroadcasterEvent::Opened { places: vec![0, 1] });
    assert_eq!(log, None);
    assert_eq!(action, "write 0 Server: Client:7 left the chat\n");
    let (b, _, action) = go_on(b, BroadcasterEvent::Written);
    assert_eq!(action, "write 1 Server: Client:7 left the chat\n");
    let (b, _, action) = go_on(b, BroadcasterEvent::Written);
    assert_eq!(action, "receive");
    assert!(b.is_expected(&BroadcasterEvent::Closed));
}

#[test]
fn failed_write_is_the_end() {
    let (b, _, _) = go_on(Broadcaster::Receiving, said());
    let (b, _, _) = go_on(b, BroadcasterEvent::Opened { places: vec![0, 1, 2] });
    let (b, _, _) = go_on(b, BroadcasterEvent::Written);
    let (b, log, action) = go_on(b, BroadcasterEvent::WriteFailed("broken pipe".to_string()));
    assert_eq!(log, None);
    assert_eq!(action, "fail broken pipe");
    assert!(!b.is_expected(&BroadcasterEvent::Written));
    assert!(!b.is_expected(&said()));
}

#[test]
fn poisoned_locks_are_the_end() {
    let (b, _, _) = go_on(Broadcaster::Receiving, said());
    let (_, _, action) = go_on(b, BroadcasterEvent::RosterPoisoned("poisoned".to_string()));
    assert_eq!(action, "fail clients lock poisoned: poisoned");
    let (b, _, _) = go_on(Broadcaster::Receiving, left(1));
    let (_, _, action) = go_on(b, BroadcasterEvent::RosterPoisoned("poisoned".to_string()));
    assert_eq!(action, "fail clients lock poisoned: poisoned");
    let (b, _, _) = go_on(Broadcaster::Receiving, said());
    let (b, _, _) = go_on(b, BroadcasterEvent::Opened { places: vec![0] });
    let (b, _, action) = go_on(b, BroadcasterEvent::WriterPoisoned("poisoned".to_string()));
    assert_eq!(action, "fail writer lock poisoned: poisoned");
    assert!(!b.is_expected(&BroadcasterEvent::Closed));
}

#[test]
fn ends_when_no_reader_is_left() {
    let (b, log, action) = go_on(Broadcaster::Receiving, BroadcasterEvent::Closed);
    assert_eq!(
        log,
        Some(
            "Broadcaster exiting: all client read thread senders dropped. Shutting down broadcasting"
                .to_string()
        )
    );
    assert_eq!(action, "finish");
    assert!(!b.is_expected(&BroadcasterEvent::Closed));
}

#[test]
fn messages_are_told_in_order() {
    let mut clients = roster(&[4, 5, 6]);
    let mut written = Vec::new();
    for event in [joined(6), said(), left(4), left(5)] {
        written.append(&mut run(&mut clients, event).1);
    }
    let texts: Vec<String> = written.iter().map(|w| format!("{} {}", w.0, w.1)).collect();
    assert_eq!(
        texts,
        vec![
            "4 Server: Client:6 joined the chat\n",
            "5 Server: Client:6 joined the chat\n",
            "4 [2024-02-29 08:05:00] Client:5: hi\n",
            "6 [2024-02-29 08:05:00] Client:5: hi\n",
            "5 Server: Client:4 left the chat\n",
            "6 Server: Client:4 left the chat\n",
            "6 Server: Client:5 left the chat\n",
        ]
    );
}

#[test]
fn nothing_is_written_to_a_leaver() {
    let mut clients = roster(&[4, 5, 6]);
    let mut written = Vec::new();
    for event in [left(5), joined(4), said(), left(6)] {
        clients.join(Client { id: 7, addr: "h:7".to_string(), writer: 0 });
        written.append(&mut run(&mut clients, event).1);
    }
    assert!(written.len() > 4);
    assert!(written.iter().all(|w| w.0 != 5));
    clients.join(Client { id: 5, addr: "h:5".to_string(), writer: 0 });
    assert!(run(&mut clients, joined(4)).1.iter().any(|w| w.0 == 5));
}
