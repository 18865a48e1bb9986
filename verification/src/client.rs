//! The client's main thread: how it connects, what it sends and how it ends.

use crate::clock::{is_stamp, stamped, stamped_line, time_just_read, timestamp};
use crate::text::{
    after_last_colon, ascii_lowered, equal_ignoring_case, is_white_space,
    law_lower_case_moves_ascii_letters_alone, law_part_behind_the_last_colon,
    law_trimming_takes_off_white_space_alone, take_after_last_colon, trim, trimmed,
};
use vstd::pervasive::unreached;
use vstd::prelude::*;

verus! {

/// Where the client's main thread stands. It starts with [`ChatClient::start`] and goes on with
/// [`ChatClient::step`]: each time it says what to do next, and is told what came of it.
pub enum ChatClient {
    /// The server is being called.
    Connecting { address: String },
    /// The client's own address is being found out.
    Addressing,
    /// The connection is being doubled, to read from it.
    Cloning,
    /// The next line of input is awaited.
    Typing,
    /// What was typed is on its way.
    Sending { text: String },
    /// The connection is being shut down.
    Quitting,
    /// The thread that reads from the server is being waited for.
    Closing,
    /// There is nothing more to do.
    Ended,
}

/// What the client does next.
pub enum ClientAction {
    /// Call the server at this address.
    Connect { address: String },
    /// Find out the client's own address.
    FindAddress,
    /// Double the connection, to read from it.
    CloneReader,
    /// Start to read from the server, and wait for a line of input.
    Listen,
    /// Wait for the next line of input.
    ReadInput,
    /// Send this to the server.
    Send { line: String },
    /// Shut down both ways of the connection.
    ShutDown,
    /// Give up the connection, and wait for the thread that reads from the server.
    Close,
    /// Stop, with all done.
    Finish,
    /// Stop, with this for a reason.
    Fail(String),
}

/// What came of the action of the client.
pub enum ClientEvent {
    /// The server has answered.
    Connected,
    /// The server cannot be reached, for this reason.
    ConnectFailed(String),
    /// This is the client's own address.
    Addressed { addr: String },
    /// The client's own address cannot be found out, for this reason.
    AddressFailed(String),
    /// The connection is doubled.
    Cloned,
    /// The connection cannot be doubled, for this reason.
    CloneFailed(String),
    /// This was typed.
    Typed { line: String },
    /// There is no more input.
    InputEnded,
    /// The input cannot be read, for this reason.
    InputFailed(String),
    /// The line was sent, at this time.
    Sent { timestamp: String },
    /// The line could not be sent, for this reason.
    SendFailed(String),
    /// The connection is shut down.
    ShutDown,
    /// The connection cannot be shut down, for this reason.
    ShutDownFailed(String),
    /// The thread that reads from the server has ended, with all done.
    ReaderFinished,
    /// The thread that reads from the server has ended, for this reason.
    ReaderFailed(String),
    /// The thread that reads from the server has panicked.
    ReaderPanicked,
}

/// What the client tells its user.
pub enum Notice {
    Nothing,
    /// A line of output, or more than one with line ends between them.
    Print(String),
    /// A complaint.
    Error(String),
}

/// What the client answers to an event: where it then stands, what it tells its user first, and
/// what it does next.
pub struct ClientStep {
    pub next: ChatClient,
    pub notice: Notice,
    pub action: ClientAction,
}

/// The contents of a [`ChatClient`].
#[verifier::ext_equal]
pub enum ChatClientView {
    Connecting { address: Seq<char> },
    Addressing,
    Cloning,
    Typing,
    Sending { text: Seq<char> },
    Quitting,
    Closing,
    Ended,
}

/// The contents of a [`ClientAction`].
#[verifier::ext_equal]
pub enum ClientActionView {
    Connect { address: Seq<char> },
    FindAddress,
    CloneReader,
    Listen,
    ReadInput,
    Send { line: Seq<char> },
    ShutDown,
    Close,
    Finish,
    Fail(Seq<char>),
}

/// The contents of a [`ClientEvent`].
#[verifier::ext_equal]
pub enum ClientEventView {
    Connected,
    ConnectFailed(Seq<char>),
    Addressed { addr: Seq<char> },
    AddressFailed(Seq<char>),
    Cloned,
    CloneFailed(Seq<char>),
    Typed { line: Seq<char> },
    InputEnded,
    InputFailed(Seq<char>),
    Sent { timestamp: Seq<char> },
    SendFailed(Seq<char>),
    ShutDown,
    ShutDownFailed(Seq<char>),
    ReaderFinished,
    ReaderFailed(Seq<char>),
    ReaderPanicked,
}

/// The contents of a [`Notice`].
#[verifier::ext_equal]
pub enum NoticeView {
    Nothing,
    Print(Seq<char>),
    Error(Seq<char>),
}

/// The contents of a [`ClientStep`].
#[verifier::ext_equal]
pub struct ClientStepView {
    pub next: ChatClientView,
    pub notice: NoticeView,
    pub action: ClientActionView,
}

impl View for ChatClient {
    type V = ChatClientView;

    open spec fn view(&self) -> ChatClientView {
        match *self {
            ChatClient::Connecting { address } => ChatClientView::Connecting { address: address@ },
            ChatClient::Addressing => ChatClientView::Addressing,
            ChatClient::Cloning => ChatClientView::Cloning,
            ChatClient::Typing => ChatClientView::Typing,
            ChatClient::Sending { text } => ChatClientView::Sending { text: text@ },
            ChatClient::Quitting => ChatClientView::Quitting,
            ChatClient::Closing => ChatClientView::Closing,
            ChatClient::Ended => ChatClientView::Ended,
        }
    }
}

impl View for ClientAction {
    type V = ClientActionView;

    open spec fn view(&self) -> ClientActionView {
        match *self {
            ClientAction::Connect { address } => ClientActionView::Connect { address: address@ },
            ClientAction::FindAddress => ClientActionView::FindAddress,
            ClientAction::CloneReader => ClientActionView::CloneReader,
            ClientAction::Listen => ClientActionView::Listen,
            ClientAction::ReadInput => ClientActionView::ReadInput,
            ClientAction::Send { line } => ClientActionView::Send { line: line@ },
            ClientAction::ShutDown => ClientActionView::ShutDown,
            ClientAction::Close => ClientActionView::Close,
            ClientAction::Finish => ClientActionView::Finish,
            ClientAction::Fail(reason) => ClientActionView::Fail(reason@),
        }
    }
}

impl View for ClientEvent {
    type V = ClientEventView;

    open spec fn view(&self) -> ClientEventView {
        match *self {
            ClientEvent::Connected => ClientEventView::Connected,
            ClientEvent::ConnectFailed(reason) => ClientEventView::ConnectFailed(reason@),
            ClientEvent::Addressed { addr } => ClientEventView::Addressed { addr: addr@ },
            ClientEvent::AddressFailed(reason) => ClientEventView::AddressFailed(reason@),
            ClientEvent::Cloned => ClientEventView::Cloned,
            ClientEvent::CloneFailed(reason) => ClientEventView::CloneFailed(reason@),
            ClientEvent::Typed { line } => ClientEventView::Typed { line: line@ },
            ClientEvent::InputEnded => ClientEventView::InputEnded,
            ClientEvent::InputFailed(reason) => ClientEventView::InputFailed(reason@),
            ClientEvent::Sent { timestamp } => ClientEventView::Sent { timestamp: timestamp@ },
            ClientEvent::SendFailed(reason) => ClientEventView::SendFailed(reason@),
            ClientEvent::ShutDown => ClientEventView::ShutDown,
            ClientEvent::ShutDownFailed(reason) => ClientEventView::ShutDownFailed(reason@),
            ClientEvent::ReaderFinished => ClientEventView::ReaderFinished,
            ClientEvent::ReaderFailed(reason) => ClientEventView::ReaderFailed(reason@),
            ClientEvent::ReaderPanicked => ClientEventView::ReaderPanicked,
        }
    }
}

impl View for Notice {
    type V = NoticeView;

    open spec fn view(&self) -> NoticeView {
        match *self {
            Notice::Nothing => NoticeView::Nothing,
            Notice::Print(text) => NoticeView::Print(text@),
            Notice::Error(complaint) => NoticeView::Error(complaint@),
        }
    }
}

impl View for ClientStep {
    type V = ClientStepView;

    open spec fn view(&self) -> ClientStepView {
        ClientStepView { next: self.next@, notice: self.notice@, action: self.action@ }
    }
}

/// Whether the user asks to quit, by `quit` or `/quit` in any case.
pub open spec fn asks_to_quit(text: Seq<char>) -> bool {
    ascii_lowered(text) == "/quit"@ || ascii_lowered(text) == "quit"@
}

/// Whether the user asks to quit.
pub fn is_quit(text: &str) -> (yes: bool)
    ensures
        yes == asks_to_quit(text@),
{
    proof {
        reveal_strlit("/quit");
        reveal_strlit("quit");
        assert(ascii_lowered("/quit"@) == "/quit"@);
        assert(ascii_lowered("quit"@) == "quit"@);
    }
    equal_ignoring_case(text, "/quit") || equal_ignoring_case(text, "quit")
}

/// The address of the server: the one that was asked for, or port 5000 of this machine.
pub open spec fn address_or_default(asked: Option<Seq<char>>) -> Seq<char> {
    match asked {
        Some(address) => address,
        None => "127.0.0.1:5000"@,
    }
}

/// How the client starts: it calls the server.
pub open spec fn started(asked: Option<Seq<char>>) -> ClientStepView {
    let address = address_or_default(asked);
    ClientStepView {
        next: ChatClientView::Connecting { address },
        notice: NoticeView::Nothing,
        action: ClientActionView::Connect { address },
    }
}

/// What the client says of its own address. Its id is the port.
pub open spec fn introduction(addr: Seq<char>) -> Seq<char> {
    "Client address "@ + addr + "\nPort number of this client is cliend_id \""@ + after_last_colon(
        addr,
    ) + "\""@
}

impl ChatClientView {
    /// Whether `event` can come of what the client does here.
    pub open spec fn expects(self, event: ClientEventView) -> bool {
        match self {
            ChatClientView::Connecting { .. } => event is Connected || event is ConnectFailed,
            ChatClientView::Addressing => event is Addressed || event is AddressFailed,
            ChatClientView::Cloning => event is Cloned || event is CloneFailed,
            ChatClientView::Typing => event is Typed || event is InputEnded || event is InputFailed,
            ChatClientView::Sending { .. } => event is Sent || event is SendFailed,
            ChatClientView::Quitting => event is ShutDown || event is ShutDownFailed,
            ChatClientView::Closing => event is ReaderFinished || event is ReaderFailed
                || event is ReaderPanicked,
            ChatClientView::Ended => false,
        }
    }

    /// The end, for a reason.
    pub open spec fn failed(reason: Seq<char>) -> ClientStepView {
        ClientStepView {
            next: ChatClientView::Ended,
            notice: NoticeView::Nothing,
            action: ClientActionView::Fail(reason),
        }
    }

    /// The connection is given up.
    pub open spec fn closed(notice: NoticeView) -> ClientStepView {
        ClientStepView { next: ChatClientView::Closing, notice, action: ClientActionView::Close }
    }

    /// What becomes of a line of input. White space around it does not count. Even a line
    /// without anything else is sent.
    pub open spec fn typed(line: Seq<char>) -> ClientStepView {
        let text = trimmed(line);
        if asks_to_quit(text) {
            ClientStepView {
                next: ChatClientView::Quitting,
                notice: NoticeView::Print("Quitting and closing client connection..."@),
                action: ClientActionView::ShutDown,
            }
        } else {
            ClientStepView {
                next: ChatClientView::Sending { text },
                notice: NoticeView::Nothing,
                action: ClientActionView::Send { line: text + "\n"@ },
            }
        }
    }

    /// What the client answers to `event`.
    pub open spec fn answer(self, event: ClientEventView) -> ClientStepView {
        match event {
            ClientEventView::Connected => ClientStepView {
                next: ChatClientView::Addressing,
                notice: NoticeView::Print("Connected to server: "@ + self->address),
                action: ClientActionView::FindAddress,
            },
            ClientEventView::ConnectFailed(reason) => Self::failed(
                "failed to connect to "@ + self->address + ": "@ + reason,
            ),
            ClientEventView::Addressed { addr } => ClientStepView {
                next: ChatClientView::Cloning,
                notice: NoticeView::Print(introduction(addr)),
                action: ClientActionView::CloneReader,
            },
            ClientEventView::AddressFailed(reason) => Self::failed(reason),
            ClientEventView::Cloned => ClientStepView {
                next: ChatClientView::Typing,
                notice: NoticeView::Nothing,
                action: ClientActionView::Listen,
            },
            ClientEventView::CloneFailed(reason) => Self::failed(
                "failed to clone stream: "@ + reason,
            ),
            ClientEventView::Typed { line } => Self::typed(line),
            ClientEventView::InputEnded => Self::closed(NoticeView::Nothing),
            ClientEventView::InputFailed(reason) => Self::failed(reason),
            ClientEventView::Sent { timestamp } => ClientStepView {
                next: ChatClientView::Typing,
                notice: NoticeView::Print(stamped(timestamp, "You sent: "@ + self->text)),
                action: ClientActionView::ReadInput,
            },
            ClientEventView::SendFailed(reason) => Self::closed(
                NoticeView::Error("failed to send message: "@ + reason),
            ),
            ClientEventView::ShutDown => Self::closed(NoticeView::Nothing),
            ClientEventView::ShutDownFailed(reason) => Self::failed(reason),
            ClientEventView::ReaderFinished => ClientStepView {
                next: ChatClientView::Ended,
                notice: NoticeView::Nothing,
                action: ClientActionView::Finish,
            },
            ClientEventView::ReaderFailed(reason) => ClientStepView {
                next: ChatClientView::Ended,
                notice: NoticeView::Error("reader thread error: "@ + reason),
                action: ClientActionView::Finish,
            },
            ClientEventView::ReaderPanicked => ClientStepView {
                next: ChatClientView::Ended,
                notice: NoticeView::Error("reader thread panicked"@),
                action: ClientActionView::Finish,
            },
        }
    }
}

fn joined_text(first: &str, second: &str) -> (text: String)
    ensures
        text@ == first@ + second@,
{
    let mut text = first.to_owned();
    text.append(second);
    text
}

fn failed(reason: String) -> (step: ClientStep)
    ensures
        step@ == ChatClientView::failed(reason@),
{
    ClientStep {
        next: ChatClient::Ended,
        notice: Notice::Nothing,
        action: ClientAction::Fail(reason),
    }
}

fn closed(notice: Notice) -> (step: ClientStep)
    ensures
        step@ == ChatClientView::closed(notice@),
{
    ClientStep { next: ChatClient::Closing, notice, action: ClientAction::Close }
}

fn finished(notice: Notice) -> (step: ClientStep)
    ensures
        step@ == (ClientStepView {
            next: ChatClientView::Ended,
            notice: notice@,
            action: ClientActionView::Finish,
        }),
{
    ClientStep { next: ChatClient::Ended, notice, action: ClientAction::Finish }
}

fn introduce(addr: &str) -> (text: String)
    ensures
        text@ == introduction(addr@),
{
    let mut text = "Client address ".to_owned();
    text.append(addr);
    text.append("\nPort number of this client is cliend_id \"");
    text.append(take_after_last_colon(addr));
    text.append("\"");
    text
}

fn type_line(line: &str) -> (step: ClientStep)
    ensures
        step@ == ChatClientView::typed(line@),
{
    let text = trim(line);
    if is_quit(text) {
        ClientStep {
            next: ChatClient::Quitting,
            notice: Notice::Print("Quitting and closing client connection...".to_owned()),
            action: ClientAction::ShutDown,
        }
    } else {
        ClientStep {
            next: ChatClient::Sending { text: text.to_owned() },
            notice: Notice::Nothing,
            action: ClientAction::Send { line: joined_text(text, "\n") },
        }
    }
}

impl ClientEvent {
    /// The line was sent just now.
    pub fn sent_now() -> (event: ClientEvent)
        ensures
            event@ matches ClientEventView::Sent { timestamp } && is_stamp(timestamp),
            event matches ClientEvent::Sent { timestamp: read } && call_ensures(
                timestamp,
                (),
                read,
            ),
    {
        ClientEvent::Sent { timestamp: time_just_read() }
    }
}

impl ChatClient {
    /// Begins to call the server that is asked for, or the one at port 5000 of this machine.
    pub fn start(asked: Option<String>) -> (step: ClientStep)
        ensures
            step@ == started(
                match asked {
                    Some(address) => Some(address@),
                    None => None,
                },
            ),
    {
        let address = match asked {
            Some(address) => address,
            None => "127.0.0.1:5000".to_owned(),
        };
        ClientStep {
            action: ClientAction::Connect { address: address.clone() },
            notice: Notice::Nothing,
            next: ChatClient::Connecting { address },
        }
    }

    /// Whether `event` can come of what the client does here.
    pub fn is_expected(&self, event: &ClientEvent) -> (yes: bool)
        ensures
            yes == self@.expects(event@),
    {
        match self {
            ChatClient::Connecting { address: _ } => match event {
                ClientEvent::Connected => true,
                ClientEvent::ConnectFailed(_) => true,
                _ => false,
            },
            ChatClient::Addressing => match event {
                ClientEvent::Addressed { addr: _ } => true,
                ClientEvent::AddressFailed(_) => true,
                _ => false,
            },
            ChatClient::Cloning => match event {
                ClientEvent::Cloned => true,
                ClientEvent::CloneFailed(_) => true,
                _ => false,
            },
            ChatClient::Typing => match event {
                ClientEvent::Typed { line: _ } => true,
                ClientEvent::InputEnded => true,
                ClientEvent::InputFailed(_) => true,
                _ => false,
            },
            ChatClient::Sending { text: _ } => match event {
                ClientEvent::Sent { timestamp: _ } => true,
                ClientEvent::SendFailed(_) => true,
                _ => false,
            },
            ChatClient::Quitting => match event {
                ClientEvent::ShutDown => true,
                ClientEvent::ShutDownFailed(_) => true,
                _ => false,
            },
            ChatClient::Closing => match event {
                ClientEvent::ReaderFinished => true,
                ClientEvent::ReaderFailed(_) => true,
                ClientEvent::ReaderPanicked => true,
                _ => false,
            },
            ChatClient::Ended => false,
        }
    }

    /// Takes in what came of the last action, and says what to tell the user and what to do next.
    pub fn step(self, event: ClientEvent) -> (step: ClientStep)
        requires
            self@.expects(event@),
        ensures
            step@ == self@.answer(event@),
    {
        match self {
            ChatClient::Connecting { address } => match event {
                ClientEvent::Connected => ClientStep {
                    next: ChatClient::Addressing,
                    notice: Notice::Print(joined_text("Connected to server: ", address.as_str())),
                    action: ClientAction::FindAddress,
                },
                ClientEvent::ConnectFailed(reason) => {
                    let mut report = joined_text("failed to connect to ", address.as_str());
                    report.append(": ");
                    report.append(reason.as_str());
                    failed(report)
                },
                _ => unreached(),
            },
            ChatClient::Addressing => match event {
                ClientEvent::Addressed { addr } => ClientStep {
                    next: ChatClient::Cloning,
                    notice: Notice::Print(introduce(addr.as_str())),
                    action: ClientAction::CloneReader,
                },
                ClientEvent::AddressFailed(reason) => failed(reason),
                _ => unreached(),
            },
            ChatClient::Cloning => match event {
                ClientEvent::Cloned => ClientStep {
                    next: ChatClient::Typing,
                    notice: Notice::Nothing,
                    action: ClientAction::Listen,
                },
                ClientEvent::CloneFailed(reason) => failed(
                    joined_text("failed to clone stream: ", reason.as_str()),
                ),
                _ => unreached(),
            },
            ChatClient::Typing => match event {
                ClientEvent::Typed { line } => type_line(line.as_str()),
                ClientEvent::InputEnded => closed(Notice::Nothing),
                ClientEvent::InputFailed(reason) => failed(reason),
                _ => unreached(),
            },
            ChatClient::Sending { text } => match event {
                ClientEvent::Sent { timestamp } => {
                    let said = joined_text("You sent: ", text.as_str());
                    ClientStep {
                        next: ChatClient::Typing,
                        notice: Notice::Print(stamped_line(timestamp.as_str(), said.as_str())),
                        action: ClientAction::ReadInput,
                    }
                },
                ClientEvent::SendFailed(reason) => closed(
                    Notice::Error(joined_text("failed to send message: ", reason.as_str())),
                ),
                _ => unreached(),
            },
            ChatClient::Quitting => match event {
                ClientEvent::ShutDown => closed(Notice::Nothing),
                ClientEvent::ShutDownFailed(reason) => failed(reason),
                _ => unreached(),
            },
            ChatClient::Closing => match event {
                ClientEvent::ReaderFinished => finished(Notice::Nothing),
                ClientEvent::ReaderFailed(reason) => finished(
                    Notice::Error(joined_text("reader thread error: ", reason.as_str())),
                ),
                ClientEvent::ReaderPanicked => finished(
                    Notice::Error("reader thread panicked".to_owned()),
                ),
                _ => unreached(),
            },
            ChatClient::Ended => unreached(),
        }
    }
}

/// What the client makes of a read from the server.
pub enum Heard {
    /// Show this, and read on.
    Show(String),
    /// Say this, and stop reading.
    Stop(String),
}

/// The contents of a [`Heard`].
#[verifier::ext_equal]
pub enum HeardView {
    Show(Seq<char>),
    Stop(Seq<char>),
}

impl View for Heard {
    type V = HeardView;

    open spec fn view(&self) -> HeardView {
        match *self {
            Heard::Show(line) => HeardView::Show(line@),
            Heard::Stop(words) => HeardView::Stop(words@),
        }
    }
}

/// What the client makes of a read of so many bytes, which make this line. A read of none is the
/// end of the connection.
pub open spec fn heard(bytes: usize, line: Seq<char>) -> HeardView {
    if bytes == 0 {
        HeardView::Stop("Server closed connection. Please exit."@)
    } else {
        HeardView::Show(line)
    }
}

/// Takes in a read from the server: so many bytes, which make this line.
pub fn hear(bytes: usize, line: String) -> (result: Heard)
    ensures
        result@ == heard(bytes, line@),
{
    if bytes == 0 {
        Heard::Stop("Server closed connection. Please exit.".to_owned())
    } else {
        Heard::Show(line)
    }
}

/// The words that quit, letter by letter, each letter large or small, and no others.
pub proof fn law_words_that_quit(text: Seq<char>)
    ensures
        asks_to_quit(text) == ({
            let word = if text.len() == 5 && text[0] == '/' {
                text.subrange(1, 5)
            } else {
                text
            };
            &&& word.len() == 4
            &&& word[0] == 'q' || word[0] == 'Q'
            &&& word[1] == 'u' || word[1] == 'U'
            &&& word[2] == 'i' || word[2] == 'I'
            &&& word[3] == 't' || word[3] == 'T'
        }),
{
    reveal_strlit("/quit");
    reveal_strlit("quit");
    law_lower_case_moves_ascii_letters_alone(text);
    let low = ascii_lowered(text);
    let word = if text.len() == 5 && text[0] == '/' {
        text.subrange(1, 5)
    } else {
        text
    };
    let said = {
        &&& word.len() == 4
        &&& word[0] == 'q' || word[0] == 'Q'
        &&& word[1] == 'u' || word[1] == 'U'
        &&& word[2] == 'i' || word[2] == 'I'
        &&& word[3] == 't' || word[3] == 'T'
    };
    if said {
        if text.len() == 5 {
            assert(low == "/quit"@);
        } else {
            assert(low == "quit"@);
        }
    }
    if low == "/quit"@ {
        assert(text.len() == 5);
        assert(low[0] == '/' && low[1] == 'q' && low[2] == 'u' && low[3] == 'i' && low[4] == 't');
        assert(text[0] == '/');
        assert(said);
    }
    if low == "quit"@ {
        assert(text.len() == 4);
        assert(low[0] == 'q' && low[1] == 'u' && low[2] == 'i' && low[3] == 't');
        assert(said);
    }
}

/// What becomes of a line that is typed. Its text is the line without the white space around it:
/// the part from `a` to `b`. Where that is quit or /quit, in letters large or small, the
/// connection is shut down. Every other text is sent, whole, with a line feed behind it.
pub proof fn law_typed_line_is_sent_or_quits(line: Seq<char>)
    ensures
        exists|a: int, b: int|
            {
                let text = #[trigger] line.subrange(a, b);
                let word = if text.len() == 5 && text[0] == '/' {
                    text.subrange(1, 5)
                } else {
                    text
                };
                let quits = {
                    &&& word.len() == 4
                    &&& word[0] == 'q' || word[0] == 'Q'
                    &&& word[1] == 'u' || word[1] == 'U'
                    &&& word[2] == 'i' || word[2] == 'I'
                    &&& word[3] == 't' || word[3] == 'T'
                };
                let step = ChatClientView::Typing.answer(ClientEventView::Typed { line });
                &&& 0 <= a <= b <= line.len()
                &&& forall|i: int| 0 <= i < a ==> is_white_space(#[trigger] line[i])
                &&& forall|i: int| b <= i < line.len() ==> is_white_space(#[trigger] line[i])
                &&& a < b ==> !is_white_space(line[a]) && !is_white_space(line[b - 1])
                &&& quits ==> {
                    &&& step.action == ClientActionView::ShutDown
                    &&& step.next == ChatClientView::Quitting
                    &&& step.notice == NoticeView::Print(
                        "Quitting and closing client connection..."@,
                    )
                }
                &&& !quits ==> {
                    &&& step.action == (ClientActionView::Send { line: text.push('\n') })
                    &&& step.next == (ChatClientView::Sending { text })
                    &&& step.notice == NoticeView::Nothing
                }
            },
{
    law_trimming_takes_off_white_space_alone(line);
    let (a, b) = choose|a: int, b: int|
        {
            &&& 0 <= a <= b <= line.len()
            &&& trimmed(line) == #[trigger] line.subrange(a, b)
            &&& forall|i: int| 0 <= i < a ==> is_white_space(#[trigger] line[i])
            &&& forall|i: int| b <= i < line.len() ==> is_white_space(#[trigger] line[i])
            &&& a < b ==> !is_white_space(line[a]) && !is_white_space(line[b - 1])
        };
    let text = line.subrange(a, b);
    law_words_that_quit(text);
    reveal_strlit("\n");
    assert(text + "\n"@ == text.push('\n'));
}

/// A line that was sent is shown to its user, behind the time, and the next one is awaited.
pub proof fn law_sent_line_is_shown(text: Seq<char>, timestamp: Seq<char>)
    ensures
        ({
            let step = ChatClientView::Sending { text }.answer(
                ClientEventView::Sent { timestamp },
            );
            &&& step.next == ChatClientView::Typing
            &&& step.action == ClientActionView::ReadInput
            &&& step.notice == NoticeView::Print("["@ + timestamp + "] You sent: "@ + text)
        }),
{
    reveal_strlit("] You sent: ");
    reveal_strlit("] ");
    reveal_strlit("You sent: ");
    assert("] You sent: "@ == "] "@ + "You sent: "@);
    assert(stamped(timestamp, "You sent: "@ + text) == "["@ + timestamp + "] You sent: "@ + text);
}

/// How the client gets from the call to the chat, and what it says of itself on the way: where it
/// is connected to, its own address, and the port, which is what stands behind the last colon.
pub proof fn law_beginning_of_the_chat(address: Seq<char>, host: Seq<char>, port: Seq<char>)
    requires
        forall|i: int| 0 <= i < port.len() ==> #[trigger] port[i] != ':',
    ensures
        ({
            let own = host + seq![':'] + port;
            let connected = ChatClientView::Connecting { address }.answer(
                ClientEventView::Connected,
            );
            let addressed = ChatClientView::Addressing.answer(
                ClientEventView::Addressed { addr: own },
            );
            let cloned = ChatClientView::Cloning.answer(ClientEventView::Cloned);
            &&& connected.next == ChatClientView::Addressing
            &&& connected.action == ClientActionView::FindAddress
            &&& connected.notice == NoticeView::Print("Connected to server: "@ + address)
            &&& addressed.next == ChatClientView::Cloning
            &&& addressed.action == ClientActionView::CloneReader
            &&& addressed.notice == NoticeView::Print(
                "Client address "@ + own + "\nPort number of this client is cliend_id \""@ + port
                    + "\""@,
            )
            &&& cloned.next == ChatClientView::Typing
            &&& cloned.action == ClientActionView::Listen
            &&& cloned.notice == NoticeView::Nothing
        }),
        started(Some(address)) == (ClientStepView {
            next: ChatClientView::Connecting { address },
            notice: NoticeView::Nothing,
            action: ClientActionView::Connect { address },
        }),
        started(None) == started(Some("127.0.0.1:5000"@)),
{
    let own = host + seq![':'] + port;
    law_part_behind_the_last_colon(own);
    let part = after_last_colon(own);
    if part.len() < port.len() {
        assert(own[own.len() - part.len() - 1] == port[port.len() - part.len() - 1]);
    }
    if part.len() > port.len() {
        assert(part[part.len() - port.len() - 1] == own[own.len() - port.len() - 1]);
        assert(own[own.len() - port.len() - 1] == ':');
    }
    assert(part == port);
}

/// A failure that the user can do nothing about ends the client, with the reason, in words of its
/// own where the server cannot be reached or the connection not be doubled.
pub proof fn law_failures_that_end_the_client(address: Seq<char>, reason: Seq<char>)
    ensures
        ({
            let call = ChatClientView::Connecting { address }.answer(
                ClientEventView::ConnectFailed(reason),
            );
            let own = ChatClientView::Addressing.answer(ClientEventView::AddressFailed(reason));
            let copy = ChatClientView::Cloning.answer(ClientEventView::CloneFailed(reason));
            let input = ChatClientView::Typing.answer(ClientEventView::InputFailed(reason));
            let shut = ChatClientView::Quitting.answer(ClientEventView::ShutDownFailed(reason));
            &&& call.action == ClientActionView::Fail(
                "failed to connect to "@ + address + ": "@ + reason,
            )
            &&& own.action == ClientActionView::Fail(reason)
            &&& copy.action == ClientActionView::Fail("failed to clone stream: "@ + reason)
            &&& input.action == ClientActionView::Fail(reason)
            &&& shut.action == ClientActionView::Fail(reason)
            &&& call.next == ChatClientView::Ended && call.notice == NoticeView::Nothing
            &&& own.next == ChatClientView::Ended && own.notice == NoticeView::Nothing
            &&& copy.next == ChatClientView::Ended && copy.notice == NoticeView::Nothing
            &&& input.next == ChatClientView::Ended && input.notice == NoticeView::Nothing
            &&& shut.next == ChatClientView::Ended && shut.notice == NoticeView::Nothing
        }),
{
}

/// The connection is given up at the end of the input, when it is shut down, and when a line
/// cannot be sent, which alone is complained of. The thread that reads is then waited for, and
/// the client ends in good order, whatever became of that thread.
pub proof fn law_end_of_the_chat(text: Seq<char>, reason: Seq<char>)
    ensures
        ({
            let ended = ChatClientView::Typing.answer(ClientEventView::InputEnded);
            let shut = ChatClientView::Quitting.answer(ClientEventView::ShutDown);
            let lost = ChatClientView::Sending { text }.answer(ClientEventView::SendFailed(reason));
            let finished = ChatClientView::Closing.answer(ClientEventView::ReaderFinished);
            let failed = ChatClientView::Closing.answer(ClientEventView::ReaderFailed(reason));
            let panicked = ChatClientView::Closing.answer(ClientEventView::ReaderPanicked);
            &&& ended.next == ChatClientView::Closing && ended.action == ClientActionView::Close
            &&& shut.next == ChatClientView::Closing && shut.action == ClientActionView::Close
            &&& lost.next == ChatClientView::Closing && lost.action == ClientActionView::Close
            &&& ended.notice == NoticeView::Nothing && shut.notice == NoticeView::Nothing
            &&& lost.notice == NoticeView::Error("failed to send message: "@ + reason)
            &&& finished.next == ChatClientView::Ended && finished.action
                == ClientActionView::Finish
            &&& failed.next == ChatClientView::Ended && failed.action == ClientActionView::Finish
            &&& panicked.next == ChatClientView::Ended && panicked.action
                == ClientActionView::Finish
            &&& finished.notice == NoticeView::Nothing
            &&& failed.notice == NoticeView::Error("reader thread error: "@ + reason)
            &&& panicked.notice == NoticeView::Error("reader thread panicked"@)
        }),
{
}

/// What can come of each action of the client, and nothing else.
pub proof fn law_what_the_client_expects(
    event: ClientEventView,
    address: Seq<char>,
    text: Seq<char>,
)
    ensures
        ({
            let kind: int = match event {
                ClientEventView::Connected => 0,
                ClientEventView::ConnectFailed(_) => 0,
                ClientEventView::Addressed { .. } => 1,
                ClientEventView::AddressFailed(_) => 1,
                ClientEventView::Cloned => 2,
                ClientEventView::CloneFailed(_) => 2,
                ClientEventView::Typed { .. } => 3,
                ClientEventView::InputEnded => 3,
                ClientEventView::InputFailed(_) => 3,
                ClientEventView::Sent { .. } => 4,
                ClientEventView::SendFailed(_) => 4,
                ClientEventView::ShutDown => 5,
                ClientEventView::ShutDownFailed(_) => 5,
                ClientEventView::ReaderFinished => 6,
                ClientEventView::ReaderFailed(_) => 6,
                ClientEventView::ReaderPanicked => 6,
            };
            &&& ChatClientView::Connecting { address }.expects(event) == (kind == 0)
            &&& ChatClientView::Addressing.expects(event) == (kind == 1)
            &&& ChatClientView::Cloning.expects(event) == (kind == 2)
            &&& ChatClientView::Typing.expects(event) == (kind == 3)
            &&& ChatClientView::Sending { text }.expects(event) == (kind == 4)
            &&& ChatClientView::Quitting.expects(event) == (kind == 5)
            &&& ChatClientView::Closing.expects(event) == (kind == 6)
            &&& !ChatClientView::Ended.expects(event)
        }),
{
}

/// What the server writes is shown as it comes, and a read of no bytes is the end.
pub proof fn law_server_is_shown_as_it_writes(bytes: usize, line: Seq<char>)
    ensures
        bytes > 0 ==> heard(bytes, line) == HeardView::Show(line),
        bytes == 0 ==> heard(bytes, line) == HeardView::Stop(
            "Server closed connection. Please exit."@,
        ),
{
}

/// The contents of stages, actions, events and answers are their parts.
pub proof fn law_client_contents(step: ClientStep, text: String)
    ensures
        step@.next == step.next@,
        step@.notice == step.notice@,
        step@.action == step.action@,
        Notice::Nothing@ == NoticeView::Nothing,
        Notice::Print(text)@ == NoticeView::Print(text@),
        Notice::Error(text)@ == NoticeView::Error(text@),
        Heard::Show(text)@ == HeardView::Show(text@),
        Heard::Stop(text)@ == HeardView::Stop(text@),
        (ChatClient::Connecting { address: text })@ == (ChatClientView::Connecting {
            address: text@,
        }),
        ChatClient::Addressing@ == ChatClientView::Addressing,
        ChatClient::Cloning@ == ChatClientView::Cloning,
        ChatClient::Typing@ == ChatClientView::Typing,
        (ChatClient::Sending { text })@ == (ChatClientView::Sending { text: text@ }),
        ChatClient::Quitting@ == ChatClientView::Quitting,
        ChatClient::Closing@ == ChatClientView::Closing,
        ChatClient::Ended@ == ChatClientView::Ended,
        (ClientAction::Connect { address: text })@ == (ClientActionView::Connect {
            address: text@,
        }),
        ClientAction::FindAddress@ == ClientActionView::FindAddress,
        ClientAction::CloneReader@ == ClientActionView::CloneReader,
        ClientAction::Listen@ == ClientActionView::Listen,
        ClientAction::ReadInput@ == ClientActionView::ReadInput,
        (ClientAction::Send { line: text })@ == (ClientActionView::Send { line: text@ }),
        ClientAction::ShutDown@ == ClientActionView::ShutDown,
        ClientAction::Close@ == ClientActionView::Close,
        ClientAction::Finish@ == ClientActionView::Finish,
        ClientAction::Fail(text)@ == ClientActionView::Fail(text@),
        ClientEvent::Connected@ == ClientEventView::Connected,
        ClientEvent::ConnectFailed(text)@ == ClientEventView::ConnectFailed(text@),
        (ClientEvent::Addressed { addr: text })@ == (ClientEventView::Addressed { addr: text@ }),
        ClientEvent::AddressFailed(text)@ == ClientEventView::AddressFailed(text@),
        ClientEvent::Cloned@ == ClientEventView::Cloned,
        ClientEvent::CloneFailed(text)@ == ClientEventView::CloneFailed(text@),
        (ClientEvent::Typed { line: text })@ == (ClientEventView::Typed { line: text@ }),
        ClientEvent::InputEnded@ == ClientEventView::InputEnded,
        ClientEvent::InputFailed(text)@ == ClientEventView::InputFailed(text@),
        (ClientEvent::Sent { timestamp: text })@ == (ClientEventView::Sent { timestamp: text@ }),
        ClientEvent::SendFailed(text)@ == ClientEventView::SendFailed(text@),
        ClientEvent::ShutDown@ == ClientEventView::ShutDown,
        ClientEvent::ShutDownFailed(text)@ == ClientEventView::ShutDownFailed(text@),
        ClientEvent::ReaderFinished@ == ClientEventView::ReaderFinished,
        ClientEvent::ReaderFailed(text)@ == ClientEventView::ReaderFailed(text@),
        ClientEvent::ReaderPanicked@ == ClientEventView::ReaderPanicked,
{
}

} // verus!
