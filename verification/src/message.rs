//! What the server passes on, and the words for it.

use crate::clock::{stamped, stamped_line};
use crate::number::{law_numerals_differ, signed_decimal, signed_decimal_text};
use vstd::prelude::*;

verus! {

/// What the readers of the clients hand to the broadcaster.
#[derive(Debug)]
pub enum ServerMessage {
    /// A client said something.
    Broadcast { from_id: i32, text: String, timestamp: String },
    /// A client has come.
    ClientJoined { id: i32, timestamp: String },
    /// A client has gone.
    ClientLeft { id: i32, timestamp: String },
}

/// The contents of a [`ServerMessage`].
#[verifier::ext_equal]
pub enum MessageView {
    Broadcast { from_id: i32, text: Seq<char>, timestamp: Seq<char> },
    ClientJoined { id: i32, timestamp: Seq<char> },
    ClientLeft { id: i32, timestamp: Seq<char> },
}

impl View for ServerMessage {
    type V = MessageView;

    open spec fn view(&self) -> MessageView {
        match *self {
            ServerMessage::Broadcast { from_id, text, timestamp } => MessageView::Broadcast {
                from_id,
                text: text@,
                timestamp: timestamp@,
            },
            ServerMessage::ClientJoined { id, timestamp } => MessageView::ClientJoined {
                id,
                timestamp: timestamp@,
            },
            ServerMessage::ClientLeft { id, timestamp } => MessageView::ClientLeft {
                id,
                timestamp: timestamp@,
            },
        }
    }
}

/// The name by which the chat speaks of a client.
pub open spec fn client_name(id: i32) -> Seq<char> {
    "Client:"@ + signed_decimal(id as int)
}

/// The name by which the chat speaks of a client.
pub fn client_name_text(id: i32) -> (name: String)
    ensures
        name@ == client_name(id),
{
    let mut name = "Client:".to_owned();
    let number = signed_decimal_text(id);
    name.append(number.as_str());
    name
}

impl MessageView {
    /// What the server's log says when the message is taken.
    pub open spec fn log_entry(self) -> Seq<char> {
        match self {
            MessageView::Broadcast { from_id, text, timestamp } => "Received from "@ + client_name(
                from_id,
            ) + ": "@ + text,
            MessageView::ClientJoined { id, timestamp } => "Client joined: "@ + client_name(id)
                + " "@,
            MessageView::ClientLeft { id, timestamp } => "Client disconnected: "@ + client_name(id),
        }
    }

    /// What the clients are told, as one line.
    pub open spec fn announcement(self) -> Seq<char> {
        match self {
            MessageView::Broadcast { from_id, text, timestamp } => stamped(
                timestamp,
                client_name(from_id) + ": "@ + text + "\n"@,
            ),
            MessageView::ClientJoined { id, timestamp } => "Server: "@ + client_name(id)
                + " joined the chat\n"@,
            MessageView::ClientLeft { id, timestamp } => "Server: "@ + client_name(id)
                + " left the chat\n"@,
        }
    }

    /// The client that is not told: the one that speaks, or that has come.
    pub open spec fn untold(self) -> Option<i32> {
        match self {
            MessageView::Broadcast { from_id, text, timestamp } => Some(from_id),
            MessageView::ClientJoined { id, timestamp } => Some(id),
            MessageView::ClientLeft { id, timestamp } => None,
        }
    }

    /// The client that has to leave the roster before the others are told.
    pub open spec fn leaver(self) -> Option<i32> {
        match self {
            MessageView::Broadcast { from_id, text, timestamp } => None,
            MessageView::ClientJoined { id, timestamp } => None,
            MessageView::ClientLeft { id, timestamp } => Some(id),
        }
    }
}

impl ServerMessage {
    /// What the server's log says when the message is taken.
    pub fn log_entry(&self) -> (entry: String)
        ensures
            entry@ == self@.log_entry(),
    {
        match self {
            ServerMessage::Broadcast { from_id, text, timestamp: _ } => {
                let mut entry = "Received from ".to_owned();
                let name = client_name_text(*from_id);
                entry.append(name.as_str());
                entry.append(": ");
                entry.append(text.as_str());
                entry
            },
            ServerMessage::ClientJoined { id, timestamp: _ } => {
                let mut entry = "Client joined: ".to_owned();
                let name = client_name_text(*id);
                entry.append(name.as_str());
                entry.append(" ");
                entry
            },
            ServerMessage::ClientLeft { id, timestamp: _ } => {
                let mut entry = "Client disconnected: ".to_owned();
                let name = client_name_text(*id);
                entry.append(name.as_str());
                entry
            },
        }
    }

    /// What the clients are told, as one line.
    pub fn announcement(&self) -> (line: String)
        ensures
            line@ == self@.announcement(),
    {
        match self {
            ServerMessage::Broadcast { from_id, text, timestamp } => {
                let mut said = client_name_text(*from_id);
                said.append(": ");
                said.append(text.as_str());
                said.append("\n");
                stamped_line(timestamp.as_str(), said.as_str())
            },
            ServerMessage::ClientJoined { id, timestamp: _ } => {
                let mut line = "Server: ".to_owned();
                let name = client_name_text(*id);
                line.append(name.as_str());
                line.append(" joined the chat\n");
                line
            },
            ServerMessage::ClientLeft { id, timestamp: _ } => {
                let mut line = "Server: ".to_owned();
                let name = client_name_text(*id);
                line.append(name.as_str());
                line.append(" left the chat\n");
                line
            },
        }
    }

    /// The client that is not told.
    pub fn untold(&self) -> (id: Option<i32>)
        ensures
            id == self@.untold(),
    {
        match self {
            ServerMessage::Broadcast { from_id, text: _, timestamp: _ } => Some(*from_id),
            ServerMessage::ClientJoined { id, timestamp: _ } => Some(*id),
            ServerMessage::ClientLeft { id: _, timestamp: _ } => None,
        }
    }

    /// The client that has to leave the roster before the others are told.
    pub fn leaver(&self) -> (id: Option<i32>)
        ensures
            id == self@.leaver(),
    {
        match self {
            ServerMessage::ClientLeft { id, timestamp: _ } => Some(*id),
            _ => None,
        }
    }
}

/// What the clients read of a message, spelled out: who has come, who has gone, and who said what
/// and when.
pub proof fn law_announcements_spelled_out(id: i32, text: Seq<char>, timestamp: Seq<char>)
    ensures
        (MessageView::ClientJoined { id, timestamp }).announcement() == "Server: Client:"@
            + signed_decimal(id as int) + " joined the chat\n"@,
        (MessageView::ClientLeft { id, timestamp }).announcement() == "Server: Client:"@
            + signed_decimal(id as int) + " left the chat\n"@,
        (MessageView::Broadcast { from_id: id, text, timestamp }).announcement() == "["@
            + timestamp + "] Client:"@ + signed_decimal(id as int) + ": "@ + text + "\n"@,
{
    reveal_strlit("Server: Client:");
    reveal_strlit("Server: ");
    reveal_strlit("Client:");
    reveal_strlit("] Client:");
    reveal_strlit("] ");
    assert("Server: Client:"@ == "Server: "@ + "Client:"@);
    assert("] Client:"@ == "] "@ + "Client:"@);
    let number = signed_decimal(id as int);
    assert((MessageView::ClientJoined { id, timestamp }).announcement() == "Server: Client:"@
        + number + " joined the chat\n"@);
    assert((MessageView::ClientLeft { id, timestamp }).announcement() == "Server: Client:"@ + number
        + " left the chat\n"@);
    assert((MessageView::Broadcast { from_id: id, text, timestamp }).announcement() == "["@
        + timestamp + "] Client:"@ + number + ": "@ + text + "\n"@);
}

/// What the log says of a message, spelled out.
pub proof fn law_log_entries_spelled_out(id: i32, text: Seq<char>, timestamp: Seq<char>)
    ensures
        (MessageView::ClientJoined { id, timestamp }).log_entry() == "Client joined: Client:"@
            + signed_decimal(id as int) + " "@,
        (MessageView::ClientLeft { id, timestamp }).log_entry() == "Client disconnected: Client:"@
            + signed_decimal(id as int),
        (MessageView::Broadcast { from_id: id, text, timestamp }).log_entry()
            == "Received from Client:"@ + signed_decimal(id as int) + ": "@ + text,
{
    reveal_strlit("Client joined: Client:");
    reveal_strlit("Client joined: ");
    reveal_strlit("Client disconnected: Client:");
    reveal_strlit("Client disconnected: ");
    reveal_strlit("Received from Client:");
    reveal_strlit("Received from ");
    reveal_strlit("Client:");
    assert("Client joined: Client:"@ == "Client joined: "@ + "Client:"@);
    assert("Client disconnected: Client:"@ == "Client disconnected: "@ + "Client:"@);
    assert("Received from Client:"@ == "Received from "@ + "Client:"@);
    let number = signed_decimal(id as int);
    assert((MessageView::ClientJoined { id, timestamp }).log_entry() == "Client joined: Client:"@
        + number + " "@);
    assert((MessageView::ClientLeft { id, timestamp }).log_entry()
        == "Client disconnected: Client:"@ + number);
    assert((MessageView::Broadcast { from_id: id, text, timestamp }).log_entry()
        == "Received from Client:"@ + number + ": "@ + text);
}

/// The news that a client has come and the news that one has gone are never the same, whoever it
/// is, and each tells of one client alone.
pub proof fn law_news_of_clients_differ(
    one: i32,
    other: i32,
    timestamp: Seq<char>,
    later: Seq<char>,
)
    ensures
        (MessageView::ClientJoined { id: one, timestamp }).announcement() != (
        MessageView::ClientLeft { id: other, timestamp: later }).announcement(),
        one != other ==> (MessageView::ClientJoined { id: one, timestamp }).announcement() != (
        MessageView::ClientJoined { id: other, timestamp: later }).announcement(),
        one != other ==> (MessageView::ClientLeft { id: one, timestamp }).announcement() != (
        MessageView::ClientLeft { id: other, timestamp: later }).announcement(),
{
    let empty = Seq::<char>::empty();
    law_announcements_spelled_out(one, empty, timestamp);
    law_announcements_spelled_out(other, empty, later);
    reveal_strlit(" joined the chat\n");
    reveal_strlit(" left the chat\n");
    let start = "Server: Client:"@;
    let a = signed_decimal(one as int);
    let b = signed_decimal(other as int);
    let come = start + a + " joined the chat\n"@;
    let gone = start + b + " left the chat\n"@;
    assert(come[come.len() - 11] == 'd');
    assert(gone[gone.len() - 11] == 't');
    if one != other {
        law_numerals_differ(one as int, other as int);
        lemma_same_frame(start, a, b, " joined the chat\n"@);
        lemma_same_frame(start, a, b, " left the chat\n"@);
    }
}

proof fn lemma_same_frame(start: Seq<char>, a: Seq<char>, b: Seq<char>, end: Seq<char>)
    requires
        a != b,
    ensures
        start + a + end != start + b + end,
{
    let x = start + a + end;
    let y = start + b + end;
    if x == y {
        assert(x.len() == start.len() + a.len() + end.len());
        assert(y.len() == start.len() + b.len() + end.len());
        assert(a.len() == b.len());
        assert forall|i: int| 0 <= i < a.len() implies a[i] == b[i] by {
            assert(x[start.len() + i] == a[i]);
            assert(y[start.len() + i] == b[i]);
        }
        assert(a == b);
    }
}

/// Who is left out, and who leaves the roster: whoever speaks or has come is not told; whoever has
/// gone leaves, and nobody else does.
pub proof fn law_who_is_left_out_and_who_leaves(id: i32, text: Seq<char>, timestamp: Seq<char>)
    ensures
        (MessageView::Broadcast { from_id: id, text, timestamp }).untold() == Some(id),
        (MessageView::Broadcast { from_id: id, text, timestamp }).leaver() == None::<i32>,
        (MessageView::ClientJoined { id, timestamp }).untold() == Some(id),
        (MessageView::ClientJoined { id, timestamp }).leaver() == None::<i32>,
        (MessageView::ClientLeft { id, timestamp }).untold() == None::<i32>,
        (MessageView::ClientLeft { id, timestamp }).leaver() == Some(id),
{
}

/// The name of a client is the word and its number.
pub proof fn law_client_name_spelled_out(id: i32)
    ensures
        client_name(id) == seq!['C', 'l', 'i', 'e', 'n', 't', ':'] + signed_decimal(id as int),
{
    reveal_strlit("Client:");
    assert("Client:"@ == seq!['C', 'l', 'i', 'e', 'n', 't', ':']);
}

/// The contents of a message are its parts.
pub proof fn law_message_contents(id: i32, text: String, timestamp: String)
    ensures
        (ServerMessage::Broadcast { from_id: id, text, timestamp })@ == (MessageView::Broadcast {
            from_id: id,
            text: text@,
            timestamp: timestamp@,
        }),
        (ServerMessage::ClientJoined { id, timestamp })@ == (MessageView::ClientJoined {
            id,
            timestamp: timestamp@,
        }),
        (ServerMessage::ClientLeft { id, timestamp })@ == (MessageView::ClientLeft {
            id,
            timestamp: timestamp@,
        }),
{
}

} // verus!
