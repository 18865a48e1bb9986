//! The server's main thread: how it starts, whom it lets in and how it ends.

use crate::number::{
    decimal, decimal_text, law_read_gives_back_written, lemma_decimal_digits, parse_i32, read_i32,
    signed_decimal, signed_decimal_text, NumberError,
};
use crate::text::{after_last_colon, law_part_behind_the_last_colon, take_after_last_colon};
use vstd::pervasive::unreached;
use vstd::prelude::*;

verus! {

/// The id of the client that calls from `addr`: the number behind the last colon, its port.
pub open spec fn id_of(addr: Seq<char>) -> Result<i32, NumberError> {
    read_i32(after_last_colon(addr))
}

/// The id of the client that calls from `addr`.
pub fn client_id(addr: &str) -> (id: Result<i32, NumberError>)
    ensures
        id == id_of(addr@),
{
    parse_i32(take_after_last_colon(addr))
}

/// Where the server's main thread stands. It starts with [`Acceptor::start`] and goes on with
/// [`Acceptor::step`]: each time it says what to do next, and is told what came of it.
pub enum Acceptor {
    /// The port is being taken.
    Binding { port: String },
    /// The next connection is awaited.
    Listening,
    /// A client is connected, and its connection is being doubled, to write to it.
    CloningWriter { id: i32, addr: String },
    /// The client is being added to the roster.
    Adding { id: i32 },
    /// The connection is being doubled, to read from it.
    CloningReader { id: i32 },
    /// All threads are being waited for.
    Closing,
    /// There is nothing more to do.
    Ended,
}

/// What the main thread does next.
pub enum AcceptorAction {
    /// Listen at this address.
    Bind { address: String },
    /// Wait for the next connection, and find out its address.
    Accept,
    /// Double the connection, to write to it.
    CloneWriter,
    /// Add the client to the roster.
    Add { id: i32, addr: String },
    /// Double the connection, to read from it.
    CloneReader,
    /// Start a reader for the client, and wait for the next connection.
    Spawn { id: i32 },
    /// Send no more messages, and wait for the readers and for the broadcaster.
    Close,
    /// Stop, with all done.
    Finish,
    /// Stop, with this for a reason.
    Fail(String),
}

/// What came of the action of the main thread.
pub enum AcceptorEvent {
    /// The server listens.
    Bound,
    /// The port cannot be had, for this reason.
    BindFailed(String),
    /// A client calls from this address.
    Connected { addr: String },
    /// A connection could not be accepted, for this reason.
    AcceptFailed(String),
    /// A client calls, and its address cannot be found out, for this reason.
    AddressFailed(String),
    /// There will be no more connections.
    NoMore,
    /// The connection is doubled.
    Cloned,
    /// The connection cannot be doubled, for this reason.
    CloneFailed(String),
    /// The client is in the roster, which now has so many.
    Added { live: usize },
    /// The roster cannot be used, for this reason.
    RosterPoisoned(String),
    /// All threads have ended.
    Closed,
}

/// What the main thread tells the one who runs it.
pub enum Report {
    Nothing,
    /// An entry of the log.
    Log(String),
    /// A complaint.
    Error(String),
}

/// What the main thread answers to an event: where it then stands, what it reports first, and
/// what it does next.
pub struct AcceptorStep {
    pub next: Acceptor,
    pub report: Report,
    pub action: AcceptorAction,
}

/// The contents of an [`Acceptor`].
#[verifier::ext_equal]
pub enum AcceptorView {
    Binding { port: Seq<char> },
    Listening,
    CloningWriter { id: i32, addr: Seq<char> },
    Adding { id: i32 },
    CloningReader { id: i32 },
    Closing,
    Ended,
}

/// The contents of an [`AcceptorAction`].
#[verifier::ext_equal]
pub enum AcceptorActionView {
    Bind { address: Seq<char> },
    Accept,
    CloneWriter,
    Add { id: i32, addr: Seq<char> },
    CloneReader,
    Spawn { id: i32 },
    Close,
    Finish,
    Fail(Seq<char>),
}

/// The contents of an [`AcceptorEvent`].
#[verifier::ext_equal]
pub enum AcceptorEventView {
    Bound,
    BindFailed(Seq<char>),
    Connected { addr: Seq<char> },
    AcceptFailed(Seq<char>),
    AddressFailed(Seq<char>),
    NoMore,
    Cloned,
    CloneFailed(Seq<char>),
    Added { live: usize },
    RosterPoisoned(Seq<char>),
    Closed,
}

/// The contents of a [`Report`].
#[verifier::ext_equal]
pub enum ReportView {
    Nothing,
    Log(Seq<char>),
    Error(Seq<char>),
}

/// The contents of an [`AcceptorStep`].
#[verifier::ext_equal]
pub struct AcceptorStepView {
    pub next: AcceptorView,
    pub report: ReportView,
    pub action: AcceptorActionView,
}

impl View for Acceptor {
    type V = AcceptorView;

    open spec fn view(&self) -> AcceptorView {
        match *self {
            Acceptor::Binding { port } => AcceptorView::Binding { port: port@ },
            Acceptor::Listening => AcceptorView::Listening,
            Acceptor::CloningWriter { id, addr } => AcceptorView::CloningWriter { id, addr: addr@ },
            Acceptor::Adding { id } => AcceptorView::Adding { id },
            Acceptor::CloningReader { id } => AcceptorView::CloningReader { id },
            Acceptor::Closing => AcceptorView::Closing,
            Acceptor::Ended => AcceptorView::Ended,
        }
    }
}

impl View for AcceptorAction {
    type V = AcceptorActionView;

    open spec fn view(&self) -> AcceptorActionView {
        match *self {
            AcceptorAction::Bind { address } => AcceptorActionView::Bind { address: address@ },
            AcceptorAction::Accept => AcceptorActionView::Accept,
            AcceptorAction::CloneWriter => AcceptorActionView::CloneWriter,
            AcceptorAction::Add { id, addr } => AcceptorActionView::Add { id, addr: addr@ },
            AcceptorAction::CloneReader => AcceptorActionView::CloneReader,
            AcceptorAction::Spawn { id } => AcceptorActionView::Spawn { id },
            AcceptorAction::Close => AcceptorActionView::Close,
            AcceptorAction::Finish => AcceptorActionView::Finish,
            AcceptorAction::Fail(reason) => AcceptorActionView::Fail(reason@),
        }
    }
}

impl View for AcceptorEvent {
    type V = AcceptorEventView;

    open spec fn view(&self) -> AcceptorEventView {
        match *self {
            AcceptorEvent::Bound => AcceptorEventView::Bound,
            AcceptorEvent::BindFailed(reason) => AcceptorEventView::BindFailed(reason@),
            AcceptorEvent::Connected { addr } => AcceptorEventView::Connected { addr: addr@ },
            AcceptorEvent::AcceptFailed(reason) => AcceptorEventView::AcceptFailed(reason@),
            AcceptorEvent::AddressFailed(reason) => AcceptorEventView::AddressFailed(reason@),
            AcceptorEvent::NoMore => AcceptorEventView::NoMore,
            AcceptorEvent::Cloned => AcceptorEventView::Cloned,
            AcceptorEvent::CloneFailed(reason) => AcceptorEventView::CloneFailed(reason@),
            AcceptorEvent::Added { live } => AcceptorEventView::Added { live },
            AcceptorEvent::RosterPoisoned(reason) => AcceptorEventView::RosterPoisoned(reason@),
            AcceptorEvent::Closed => AcceptorEventView::Closed,
        }
    }
}

impl View for Report {
    type V = ReportView;

    open spec fn view(&self) -> ReportView {
        match *self {
            Report::Nothing => ReportView::Nothing,
            Report::Log(entry) => ReportView::Log(entry@),
            Report::Error(complaint) => ReportView::Error(complaint@),
        }
    }
}

impl View for AcceptorStep {
    type V = AcceptorStepView;

    open spec fn view(&self) -> AcceptorStepView {
        AcceptorStepView {
            next: self.next@,
            report: self.report@,
            action: self.action@,
        }
    }
}

/// The port that the server takes: the one that was asked for, or 5000.
pub open spec fn port_or_default(asked: Option<Seq<char>>) -> Seq<char> {
    match asked {
        Some(port) => port,
        None => "5000"@,
    }
}

/// How the server starts: it takes the port on all addresses of the machine.
pub open spec fn started(asked: Option<Seq<char>>) -> AcceptorStepView {
    let port = port_or_default(asked);
    AcceptorStepView {
        next: AcceptorView::Binding { port },
        report: ReportView::Nothing,
        action: AcceptorActionView::Bind { address: "0.0.0.0:"@ + port },
    }
}

impl AcceptorView {
    /// Whether `event` can come of what the main thread does here.
    pub open spec fn expects(self, event: AcceptorEventView) -> bool {
        match self {
            AcceptorView::Binding { .. } => event is Bound || event is BindFailed,
            AcceptorView::Listening => event is Connected || event is AcceptFailed
                || event is AddressFailed || event is NoMore,
            AcceptorView::CloningWriter { .. } => event is Cloned || event is CloneFailed,
            AcceptorView::Adding { .. } => event is Added || event is RosterPoisoned,
            AcceptorView::CloningReader { .. } => event is Cloned || event is CloneFailed,
            AcceptorView::Closing => event is Closed,
            AcceptorView::Ended => false,
        }
    }

    /// The end, for a reason.
    pub open spec fn failed(reason: Seq<char>) -> AcceptorStepView {
        AcceptorStepView {
            next: AcceptorView::Ended,
            report: ReportView::Nothing,
            action: AcceptorActionView::Fail(reason),
        }
    }

    /// What becomes of a client that calls from `addr`: it is let in if its address has an id.
    pub open spec fn admitted(addr: Seq<char>) -> AcceptorStepView {
        match id_of(addr) {
            Ok(id) => AcceptorStepView {
                next: AcceptorView::CloningWriter { id, addr },
                report: ReportView::Log(
                    "Client connected: "@ + addr + " (id: "@ + signed_decimal(id as int) + ")"@,
                ),
                action: AcceptorActionView::CloneWriter,
            },
            Err(error) => Self::failed("failed to parse port number as i32: "@ + error.words()),
        }
    }

    /// What the main thread answers to `event`.
    ///
    /// A connection that cannot be accepted is complained of, and the next one is awaited; any
    /// other failure is the end. A client is in the roster before its reader starts.
    pub open spec fn answer(self, event: AcceptorEventView) -> AcceptorStepView {
        match (self, event) {
            (AcceptorView::Binding { port }, AcceptorEventView::Bound) => AcceptorStepView {
                next: AcceptorView::Listening,
                report: ReportView::Log("Server started on port "@ + port),
                action: AcceptorActionView::Accept,
            },
            (AcceptorView::Binding { port }, AcceptorEventView::BindFailed(reason)) => Self::failed(
                "failed to bind on port "@ + port + ": "@ + reason,
            ),
            (_, AcceptorEventView::Connected { addr }) => Self::admitted(addr),
            (_, AcceptorEventView::AcceptFailed(reason)) => AcceptorStepView {
                next: AcceptorView::Listening,
                report: ReportView::Error("failed to accept client: "@ + reason),
                action: AcceptorActionView::Accept,
            },
            (_, AcceptorEventView::AddressFailed(reason)) => Self::failed(
                "failed to get peer addr: "@ + reason,
            ),
            (_, AcceptorEventView::NoMore) => AcceptorStepView {
                next: AcceptorView::Closing,
                report: ReportView::Nothing,
                action: AcceptorActionView::Close,
            },
            (AcceptorView::CloningWriter { id, addr }, AcceptorEventView::Cloned) =>
                AcceptorStepView {
                next: AcceptorView::Adding { id },
                report: ReportView::Nothing,
                action: AcceptorActionView::Add { id, addr },
            },
            (AcceptorView::CloningWriter { .. }, AcceptorEventView::CloneFailed(reason)) =>
                Self::failed("failed to clone stream for storing writer: "@ + reason),
            (AcceptorView::Adding { id }, AcceptorEventView::Added { live }) => AcceptorStepView {
                next: AcceptorView::CloningReader { id },
                report: ReportView::Log(
                    "Total number of clients connected live: "@ + decimal(live as nat),
                ),
                action: AcceptorActionView::CloneReader,
            },
            (_, AcceptorEventView::RosterPoisoned(reason)) => Self::failed(
                "clients lock poisoned: "@ + reason,
            ),
            (AcceptorView::CloningReader { id }, AcceptorEventView::Cloned) => AcceptorStepView {
                next: AcceptorView::Listening,
                report: ReportView::Nothing,
                action: AcceptorActionView::Spawn { id },
            },
            (_, AcceptorEventView::CloneFailed(reason)) => Self::failed(
                "failed to clone stream for reader thread creation: "@ + reason,
            ),
            (_, _) => AcceptorStepView {
                next: AcceptorView::Ended,
                report: ReportView::Log("Server shutdown completed."@),
                action: AcceptorActionView::Finish,
            },
        }
    }
}

fn failed(reason: String) -> (step: AcceptorStep)
    ensures
        step@ == AcceptorView::failed(reason@),
{
    AcceptorStep {
        next: Acceptor::Ended,
        report: Report::Nothing,
        action: AcceptorAction::Fail(reason),
    }
}

fn failed_because(what: &str, reason: String) -> (step: AcceptorStep)
    ensures
        step@ == AcceptorView::failed(what@ + reason@),
{
    let mut report = what.to_owned();
    report.append(reason.as_str());
    failed(report)
}

fn let_in(addr: String) -> (step: AcceptorStep)
    ensures
        step@ == AcceptorView::admitted(addr@),
{
    match client_id(addr.as_str()) {
        Ok(id) => {
            let mut entry = "Client connected: ".to_owned();
            entry.append(addr.as_str());
            entry.append(" (id: ");
            let number = signed_decimal_text(id);
            entry.append(number.as_str());
            entry.append(")");
            AcceptorStep {
                next: Acceptor::CloningWriter { id, addr },
                report: Report::Log(entry),
                action: AcceptorAction::CloneWriter,
            }
        },
        Err(error) => {
            let mut report = "failed to parse port number as i32: ".to_owned();
            report.append(error.message());
            failed(report)
        },
    }
}

impl Acceptor {
    /// Begins to listen, on all addresses of the machine, at the port that is asked for, or at
    /// 5000.
    pub fn start(asked: Option<String>) -> (step: AcceptorStep)
        ensures
            step@ == started(
                match asked {
                    Some(port) => Some(port@),
                    None => None,
                },
            ),
    {
        let port = match asked {
            Some(port) => port,
            None => "5000".to_owned(),
        };
        let mut address = "0.0.0.0:".to_owned();
        address.append(port.as_str());
        AcceptorStep {
            next: Acceptor::Binding { port },
            report: Report::Nothing,
            action: AcceptorAction::Bind { address },
        }
    }

    /// Whether `event` can come of what the main thread does here.
    pub fn is_expected(&self, event: &AcceptorEvent) -> (yes: bool)
        ensures
            yes == self@.expects(event@),
    {
        match self {
            Acceptor::Binding { port: _ } => match event {
                AcceptorEvent::Bound => true,
                AcceptorEvent::BindFailed(_) => true,
                _ => false,
            },
            Acceptor::Listening => match event {
                AcceptorEvent::Connected { addr: _ } => true,
                AcceptorEvent::AcceptFailed(_) => true,
                AcceptorEvent::AddressFailed(_) => true,
                AcceptorEvent::NoMore => true,
                _ => false,
            },
            Acceptor::CloningWriter { id: _, addr: _ } => match event {
                AcceptorEvent::Cloned => true,
                AcceptorEvent::CloneFailed(_) => true,
                _ => false,
            },
            Acceptor::Adding { id: _ } => match event {
                AcceptorEvent::Added { live: _ } => true,
                AcceptorEvent::RosterPoisoned(_) => true,
                _ => false,
            },
            Acceptor::CloningReader { id: _ } => match event {
                AcceptorEvent::Cloned => true,
                AcceptorEvent::CloneFailed(_) => true,
                _ => false,
            },
            Acceptor::Closing => match event {
                AcceptorEvent::Closed => true,
                _ => false,
            },
            Acceptor::Ended => false,
        }
    }

    /// Takes in what came of the last action, and says what to report and what to do next.
    pub fn step(self, event: AcceptorEvent) -> (step: AcceptorStep)
        requires
            self@.expects(event@),
        ensures
            step@ == self@.answer(event@),
    {
        match self {
            Acceptor::Binding { port } => match event {
                AcceptorEvent::Bound => {
                    let mut entry = "Server started on port ".to_owned();
                    entry.append(port.as_str());
                    AcceptorStep {
                        next: Acceptor::Listening,
                        report: Report::Log(entry),
                        action: AcceptorAction::Accept,
                    }
                },
                AcceptorEvent::BindFailed(reason) => {
                    let mut report = "failed to bind on port ".to_owned();
                    report.append(port.as_str());
                    report.append(": ");
                    report.append(reason.as_str());
                    failed(report)
                },
                _ => unreached(),
            },
            Acceptor::Listening => match event {
                AcceptorEvent::Connected { addr } => let_in(addr),
                AcceptorEvent::AcceptFailed(reason) => {
                    let mut complaint = "failed to accept client: ".to_owned();
                    complaint.append(reason.as_str());
                    AcceptorStep {
                        next: Acceptor::Listening,
                        report: Report::Error(complaint),
                        action: AcceptorAction::Accept,
                    }
                },
                AcceptorEvent::AddressFailed(reason) => failed_because(
                    "failed to get peer addr: ",
                    reason,
                ),
                AcceptorEvent::NoMore => AcceptorStep {
                    next: Acceptor::Closing,
                    report: Report::Nothing,
                    action: AcceptorAction::Close,
                },
                _ => unreached(),
            },
            Acceptor::CloningWriter { id, addr } => match event {
                AcceptorEvent::Cloned => AcceptorStep {
                    next: Acceptor::Adding { id },
                    report: Report::Nothing,
                    action: AcceptorAction::Add { id, addr },
                },
                AcceptorEvent::CloneFailed(reason) => failed_because(
                    "failed to clone stream for storing writer: ",
                    reason,
                ),
                _ => unreached(),
            },
            Acceptor::Adding { id } => match event {
                AcceptorEvent::Added { live } => {
                    let mut entry = "Total number of clients connected live: ".to_owned();
                    let number = decimal_text(live as u64);
                    entry.append(number.as_str());
                    AcceptorStep {
                        next: Acceptor::CloningReader { id },
                        report: Report::Log(entry),
                        action: AcceptorAction::CloneReader,
                    }
                },
                AcceptorEvent::RosterPoisoned(reason) => failed_because(
                    "clients lock poisoned: ",
                    reason,
                ),
                _ => unreached(),
            },
            Acceptor::CloningReader { id } => match event {
                AcceptorEvent::Cloned => AcceptorStep {
                    next: Acceptor::Listening,
                    report: Report::Nothing,
                    action: AcceptorAction::Spawn { id },
                },
                AcceptorEvent::CloneFailed(reason) => failed_because(
                    "failed to clone stream for reader thread creation: ",
                    reason,
                ),
                _ => unreached(),
            },
            Acceptor::Closing => AcceptorStep {
                next: Acceptor::Ended,
                report: Report::Log("Server shutdown completed.".to_owned()),
                action: AcceptorAction::Finish,
            },
            Acceptor::Ended => unreached(),
        }
    }
}

/// A thread of the server.
#[derive(Debug, Clone, Copy, PartialEq, Eq, Structural)]
pub enum Role {
    /// It reads what one client says.
    Client,
    /// It tells the clients.
    Broadcaster,
}

/// How a thread has ended.
pub enum Outcome {
    /// With all done.
    Finished,
    /// With an error.
    Failed(String),
    /// With a panic, and what it said.
    Panicked(String),
}

/// What is complained of when a thread has ended.
pub open spec fn complaint(role: Role, outcome: Outcome) -> Option<Seq<char>> {
    let name = match role {
        Role::Client => "client"@,
        Role::Broadcaster => "broadcaster"@,
    };
    match outcome {
        Outcome::Finished => None,
        Outcome::Failed(reason) => Some(name + " thread returned error: "@ + reason@),
        Outcome::Panicked(payload) => Some(name + " thread panicked: "@ + payload@),
    }
}

/// What to complain of when a thread has ended.
pub fn thread_complaint(role: Role, outcome: &Outcome) -> (text: Option<String>)
    ensures
        match text {
            Some(line) => complaint(role, *outcome) == Some(line@),
            None => complaint(role, *outcome) is None,
        },
{
    let mut line = match role {
        Role::Client => "client".to_owned(),
        Role::Broadcaster => "broadcaster".to_owned(),
    };
    match outcome {
        Outcome::Finished => None,
        Outcome::Failed(reason) => {
            line.append(" thread returned error: ");
            line.append(reason.as_str());
            Some(line)
        },
        Outcome::Panicked(payload) => {
            line.append(" thread panicked: ");
            line.append(payload.as_str());
            Some(line)
        },
    }
}

/// The id of a client is the port that it calls from, whatever its host is called.
pub proof fn law_id_is_the_port(host: Seq<char>, port: u16)
    ensures
        id_of(host + seq![':'] + decimal(port as nat)) == Ok::<i32, NumberError>(port as i32),
{
    let digits = decimal(port as nat);
    lemma_decimal_digits(port as nat);
    lemma_behind_colon(host, digits);
    law_read_gives_back_written(port as i32);
}

proof fn lemma_behind_colon(host: Seq<char>, digits: Seq<char>)
    requires
        forall|i: int| 0 <= i < digits.len() ==> #[trigger] digits[i] != ':',
    ensures
        after_last_colon(host + seq![':'] + digits) == digits,
    decreases digits.len(),
{
    let s = host + seq![':'] + digits;
    if digits.len() == 0 {
        assert(s.last() == ':');
    } else {
        let fewer = digits.drop_last();
        assert forall|i: int| 0 <= i < fewer.len() implies #[trigger] fewer[i] != ':' by {
            assert(fewer[i] == digits[i]);
        }
        lemma_behind_colon(host, fewer);
        assert(s.drop_last() == host + seq![':'] + fewer);
        assert(s.last() == digits[digits.len() - 1]);
        assert(fewer.push(digits.last()) == digits);
    }
}

/// A client whose connection can be doubled is added to the roster under the id of its address,
/// and only behind that a reader starts, under the same id. The server then waits for the next
/// client.
pub proof fn law_client_is_added_before_it_is_read(addr: Seq<char>, live: usize, id: i32)
    requires
        id_of(addr) == Ok::<i32, NumberError>(id),
    ensures
        ({
            let called = AcceptorView::Listening.answer(AcceptorEventView::Connected { addr });
            let doubled = called.next.answer(AcceptorEventView::Cloned);
            let added = doubled.next.answer(AcceptorEventView::Added { live });
            let doubled_again = added.next.answer(AcceptorEventView::Cloned);
            &&& called.action == AcceptorActionView::CloneWriter
            &&& called.next.expects(AcceptorEventView::Cloned)
            &&& doubled.action == AcceptorActionView::Add { id, addr }
            &&& doubled.next.expects(AcceptorEventView::Added { live })
            &&& added.action == AcceptorActionView::CloneReader
            &&& added.next.expects(AcceptorEventView::Cloned)
            &&& doubled_again.action == AcceptorActionView::Spawn { id }
            &&& doubled_again.next == AcceptorView::Listening
        }),
{
}

/// The id is read from what stands behind the last colon, and from all of an address that has
/// none.
pub proof fn law_id_is_read_behind_the_last_colon(host: Seq<char>, tail: Seq<char>)
    requires
        forall|i: int| 0 <= i < tail.len() ==> #[trigger] tail[i] != ':',
    ensures
        id_of(host + seq![':'] + tail) == read_i32(tail),
        id_of(tail) == read_i32(tail),
{
    lemma_behind_colon(host, tail);
    law_part_behind_the_last_colon(tail);
    let part = after_last_colon(tail);
    assert(part.len() == tail.len());
    assert(part == tail);
}

/// A client is let in exactly where its address has an id, and it is let in under that id. Its
/// address and its id are logged. An address without one ends the server, with the reason.
pub proof fn law_who_is_let_in(addr: Seq<char>)
    ensures
        ({
            let step = AcceptorView::Listening.answer(AcceptorEventView::Connected { addr });
            match id_of(addr) {
                Ok(id) => {
                    &&& step.next == (AcceptorView::CloningWriter { id, addr })
                    &&& step.action == AcceptorActionView::CloneWriter
                    &&& step.report == ReportView::Log(
                        "Client connected: "@ + addr + " (id: "@ + signed_decimal(id as int) + ")"@,
                    )
                },
                Err(error) => {
                    &&& step.next == AcceptorView::Ended
                    &&& step.action == AcceptorActionView::Fail(
                        "failed to parse port number as i32: "@ + error.words(),
                    )
                    &&& step.report == ReportView::Nothing
                },
            }
        }),
{
}

/// A connection is doubled, added and doubled again, each time for the same client, and then read.
pub proof fn law_steps_of_letting_in(id: i32, addr: Seq<char>, live: usize)
    ensures
        ({
            let doubled = AcceptorView::CloningWriter { id, addr }.answer(
                AcceptorEventView::Cloned,
            );
            let added = AcceptorView::Adding { id }.answer(AcceptorEventView::Added { live });
            let read = AcceptorView::CloningReader { id }.answer(AcceptorEventView::Cloned);
            &&& doubled.next == (AcceptorView::Adding { id })
            &&& doubled.action == (AcceptorActionView::Add { id, addr })
            &&& doubled.report == ReportView::Nothing
            &&& added.next == (AcceptorView::CloningReader { id })
            &&& added.action == AcceptorActionView::CloneReader
            &&& added.report == ReportView::Log(
                "Total number of clients connected live: "@ + decimal(live as nat),
            )
            &&& read.next == AcceptorView::Listening
            &&& read.action == (AcceptorActionView::Spawn { id })
            &&& read.report == ReportView::Nothing
        }),
{
}

/// How the server begins to listen, at the port that is asked for or at 5000, and how it ends in
/// good order.
pub proof fn law_beginning_and_end(port: Seq<char>)
    ensures
        ({
            let bound = AcceptorView::Binding { port }.answer(AcceptorEventView::Bound);
            let no_more = AcceptorView::Listening.answer(AcceptorEventView::NoMore);
            let closed = AcceptorView::Closing.answer(AcceptorEventView::Closed);
            &&& bound.next == AcceptorView::Listening
            &&& bound.action == AcceptorActionView::Accept
            &&& bound.report == ReportView::Log("Server started on port "@ + port)
            &&& no_more.next == AcceptorView::Closing
            &&& no_more.action == AcceptorActionView::Close
            &&& no_more.report == ReportView::Nothing
            &&& closed.next == AcceptorView::Ended
            &&& closed.action == AcceptorActionView::Finish
            &&& closed.report == ReportView::Log("Server shutdown completed."@)
        }),
        started(Some(port)) == (AcceptorStepView {
            next: AcceptorView::Binding { port },
            report: ReportView::Nothing,
            action: AcceptorActionView::Bind {
                address: seq!['0', '.', '0', '.', '0', '.', '0', ':'] + port,
            },
        }),
        started(None) == started(Some(seq!['5', '0', '0', '0'])),
{
    reveal_strlit("0.0.0.0:");
    reveal_strlit("5000");
    assert("0.0.0.0:"@ == seq!['0', '.', '0', '.', '0', '.', '0', ':']);
    assert("5000"@ == seq!['5', '0', '0', '0']);
}

/// A connection that cannot be accepted is complained of, and the server goes on.
pub proof fn law_failed_accept_does_not_end_the_server(reason: Seq<char>)
    ensures
        ({
            let step = AcceptorView::Listening.answer(AcceptorEventView::AcceptFailed(reason));
            &&& step.next == AcceptorView::Listening
            &&& step.action == AcceptorActionView::Accept
            &&& step.report == ReportView::Error("failed to accept client: "@ + reason)
        }),
{
}

/// Every other failure ends the server, with words that say what failed, and the reason.
pub proof fn law_other_failures_end_the_server(
    port: Seq<char>,
    id: i32,
    addr: Seq<char>,
    reason: Seq<char>,
)
    ensures
        ({
            let bind = AcceptorView::Binding { port }.answer(AcceptorEventView::BindFailed(reason));
            let address = AcceptorView::Listening.answer(AcceptorEventView::AddressFailed(reason));
            let writer = AcceptorView::CloningWriter { id, addr }.answer(
                AcceptorEventView::CloneFailed(reason),
            );
            let roster = AcceptorView::Adding { id }.answer(
                AcceptorEventView::RosterPoisoned(reason),
            );
            let reader = AcceptorView::CloningReader { id }.answer(
                AcceptorEventView::CloneFailed(reason),
            );
            &&& bind.action == AcceptorActionView::Fail(
                "failed to bind on port "@ + port + ": "@ + reason,
            )
            &&& address.action == AcceptorActionView::Fail("failed to get peer addr: "@ + reason)
            &&& writer.action == AcceptorActionView::Fail(
                "failed to clone stream for storing writer: "@ + reason,
            )
            &&& roster.action == AcceptorActionView::Fail("clients lock poisoned: "@ + reason)
            &&& reader.action == AcceptorActionView::Fail(
                "failed to clone stream for reader thread creation: "@ + reason,
            )
            &&& bind.next == AcceptorView::Ended && bind.report == ReportView::Nothing
            &&& address.next == AcceptorView::Ended && address.report == ReportView::Nothing
            &&& writer.next == AcceptorView::Ended && writer.report == ReportView::Nothing
            &&& roster.next == AcceptorView::Ended && roster.report == ReportView::Nothing
            &&& reader.next == AcceptorView::Ended && reader.report == ReportView::Nothing
        }),
{
}

/// What can come of each action of the main thread, and nothing else.
pub proof fn law_what_the_main_thread_expects(
    event: AcceptorEventView,
    port: Seq<char>,
    id: i32,
    addr: Seq<char>,
)
    ensures
        ({
            let kind: int = match event {
                AcceptorEventView::Bound => 0,
                AcceptorEventView::BindFailed(_) => 0,
                AcceptorEventView::Connected { .. } => 1,
                AcceptorEventView::AcceptFailed(_) => 1,
                AcceptorEventView::AddressFailed(_) => 1,
                AcceptorEventView::NoMore => 1,
                AcceptorEventView::Cloned => 2,
                AcceptorEventView::CloneFailed(_) => 2,
                AcceptorEventView::Added { .. } => 3,
                AcceptorEventView::RosterPoisoned(_) => 3,
                AcceptorEventView::Closed => 4,
            };
            &&& AcceptorView::Binding { port }.expects(event) == (kind == 0)
            &&& AcceptorView::Listening.expects(event) == (kind == 1)
            &&& AcceptorView::CloningWriter { id, addr }.expects(event) == (kind == 2)
            &&& AcceptorView::CloningReader { id }.expects(event) == (kind == 2)
            &&& AcceptorView::Adding { id }.expects(event) == (kind == 3)
            &&& AcceptorView::Closing.expects(event) == (kind == 4)
            &&& !AcceptorView::Ended.expects(event)
        }),
{
}

/// A thread that ends with all done is not complained of. One that fails, or panics, is: by what it
/// is, by how it ended, and with what it left.
pub proof fn law_threads_that_are_complained_of(role: Role, left: String)
    ensures
        complaint(role, Outcome::Finished) == None::<Seq<char>>,
        complaint(Role::Client, Outcome::Failed(left)) == Some(
            "client thread returned error: "@ + left@,
        ),
        complaint(Role::Client, Outcome::Panicked(left)) == Some(
            "client thread panicked: "@ + left@,
        ),
        complaint(Role::Broadcaster, Outcome::Failed(left)) == Some(
            "broadcaster thread returned error: "@ + left@,
        ),
        complaint(Role::Broadcaster, Outcome::Panicked(left)) == Some(
            "broadcaster thread panicked: "@ + left@,
        ),
{
    reveal_strlit("client");
    reveal_strlit("broadcaster");
    reveal_strlit(" thread returned error: ");
    reveal_strlit(" thread panicked: ");
    reveal_strlit("client thread returned error: ");
    reveal_strlit("client thread panicked: ");
    reveal_strlit("broadcaster thread returned error: ");
    reveal_strlit("broadcaster thread panicked: ");
    assert("client thread returned error: "@ == "client"@ + " thread returned error: "@);
    assert("client thread panicked: "@ == "client"@ + " thread panicked: "@);
    assert("broadcaster thread returned error: "@ == "broadcaster"@ + " thread returned error: "@);
    assert("broadcaster thread panicked: "@ == "broadcaster"@ + " thread panicked: "@);
}

/// The contents of stages, actions, events and answers are their parts.
pub proof fn law_main_thread_contents(
    step: AcceptorStep,
    text: String,
    id: i32,
    addr: String,
    live: usize,
)
    ensures
        step@.next == step.next@,
        step@.report == step.report@,
        step@.action == step.action@,
        Report::Nothing@ == ReportView::Nothing,
        Report::Log(text)@ == ReportView::Log(text@),
        Report::Error(text)@ == ReportView::Error(text@),
        (Acceptor::Binding { port: text })@ == (AcceptorView::Binding { port: text@ }),
        Acceptor::Listening@ == AcceptorView::Listening,
        (Acceptor::CloningWriter { id, addr })@ == (AcceptorView::CloningWriter {
            id,
            addr: addr@,
        }),
        (Acceptor::Adding { id })@ == (AcceptorView::Adding { id }),
        (Acceptor::CloningReader { id })@ == (AcceptorView::CloningReader { id }),
        Acceptor::Closing@ == AcceptorView::Closing,
        Acceptor::Ended@ == AcceptorView::Ended,
        (AcceptorAction::Bind { address: text })@ == (AcceptorActionView::Bind {
            address: text@,
        }),
        AcceptorAction::Accept@ == AcceptorActionView::Accept,
        AcceptorAction::CloneWriter@ == AcceptorActionView::CloneWriter,
        (AcceptorAction::Add { id, addr })@ == (AcceptorActionView::Add { id, addr: addr@ }),
        AcceptorAction::CloneReader@ == AcceptorActionView::CloneReader,
        (AcceptorAction::Spawn { id })@ == (AcceptorActionView::Spawn { id }),
        AcceptorAction::Close@ == AcceptorActionView::Close,
        AcceptorAction::Finish@ == AcceptorActionView::Finish,
        AcceptorAction::Fail(text)@ == AcceptorActionView::Fail(text@),
        AcceptorEvent::Bound@ == AcceptorEventView::Bound,
        AcceptorEvent::BindFailed(text)@ == AcceptorEventView::BindFailed(text@),
        (AcceptorEvent::Connected { addr })@ == (AcceptorEventView::Connected { addr: addr@ }),
        AcceptorEvent::AcceptFailed(text)@ == AcceptorEventView::AcceptFailed(text@),
        AcceptorEvent::AddressFailed(text)@ == AcceptorEventView::AddressFailed(text@),
        AcceptorEvent::NoMore@ == AcceptorEventView::NoMore,
        AcceptorEvent::Cloned@ == AcceptorEventView::Cloned,
        AcceptorEvent::CloneFailed(text)@ == AcceptorEventView::CloneFailed(text@),
        (AcceptorEvent::Added { live })@ == (AcceptorEventView::Added { live }),
        AcceptorEvent::RosterPoisoned(text)@ == AcceptorEventView::RosterPoisoned(text@),
        AcceptorEvent::Closed@ == AcceptorEventView::Closed,
{
}

} // verus!
