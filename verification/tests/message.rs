use tcp_chat::message::{client_name_text, ServerMessage};

fn said() -> ServerMessage {
    ServerMessage::Broadcast {
        from_id: 50123,
        text: "hello there".to_string(),
        timestamp: "2024-02-29 08:05:00".to_string(),
    }
}

fn joined() -> ServerMessage {
    ServerMessage::ClientJoined { id: 50123, timestamp: "2024-02-29 08:05:00".to_string() }
}

fn left() -> ServerMessage {
    ServerMessage::ClientLeft { id: 50123, timestamp: "2024-02-29 08:05:00".to_string() }
}

#[test]
fn log_entries() {
    assert_eq!(said().log_entry(), "Received from Client:50123: hello there");
    assert_eq!(joined().log_entry(), "Client joined: Client:50123 ");
    assert_eq!(left().log_entry(), "Client disconnected: Client:50123");
}

#[test]
fn announcements() {
    assert_eq!(said().announcement(), "[2024-02-29 08:05:00] Client:50123: hello there\n");
    assert_eq!(joined().announcement(), "Server: Client:50123 joined the chat\n");
    assert_eq!(left().announcement(), "Server: Client:50123 left the chat\n");
}

#[test]
fn who_is_untold_and_who_leaves() {
    assert_eq!(said().untold(), Some(50123));
    assert_eq!(joined().untold(), Some(50123));
    assert_eq!(left().untold(), None);
    assert_eq!(said().leaver(), None);
    assert_eq!(joined().leaver(), None);
    assert_eq!(left().leaver(), Some(50123));
}

#[test]
fn names() {
    assert_eq!(client_name_text(7), "Client:7");
    assert_eq!(client_name_text(-7), "Client:-7");
}
