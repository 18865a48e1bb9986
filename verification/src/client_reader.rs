//! The reader of one client: what it takes from the connection and what it passes on.

use crate::clock::{is_stamp, time_just_read, timestamp};
use crate::message::{MessageView, ServerMessage};
use crate::text::{
    blank, is_blank, is_line_end, is_white_space, law_line_text_cuts_the_line_end_alone,
    law_white_space_by_code_point, lemma_drop_trailing, lemma_text_of_a_line, line_text,
    take_line_text,
};
use vstd::pervasive::unreached;
use vstd::prelude::*;

verus! {

/// Where the reader of a client stands. It starts with [`ClientReader::start`] and goes on with
/// [`ClientReader::step`]: each time it says what to do next, and is told what came of it.
#[derive(Debug, Clone, Copy, PartialEq, Eq, Structural)]
pub enum ClientReader {
    /// The news that the client has come is on its way.
    Joining { id: i32 },
    /// The next line is awaited.
    Reading { id: i32 },
    /// What the client said is on its way.
    Relaying { id: i32 },
    /// The news that the client has gone is on its way.
    Leaving { id: i32 },
    /// There is nothing more to do.
    Ended { id: i32 },
}

/// What a reader does next.
pub enum ReaderAction {
    /// Hand a message to the broadcaster.
    Send(ServerMessage),
    /// Read the next line of the connection.
    ReadLine,
    /// Stop, with all done.
    Finish,
    /// Stop, with this for a reason.
    Fail(String),
}

/// What came of the action of a reader.
pub enum ReaderEvent {
    /// The broadcaster has the message.
    Sent,
    /// The message could not be handed over, for this reason.
    Refused(String),
    /// So many bytes were read, which make this line, at this time.
    Line { bytes: usize, line: String, timestamp: String },
    /// The connection could not be read, for this reason.
    Failed(String),
}

/// The contents of a [`ReaderAction`].
#[verifier::ext_equal]
pub enum ReaderActionView {
    Send(MessageView),
    ReadLine,
    Finish,
    Fail(Seq<char>),
}

/// The contents of a [`ReaderEvent`].
#[verifier::ext_equal]
pub enum ReaderEventView {
    Sent,
    Refused(Seq<char>),
    Line { bytes: usize, line: Seq<char>, timestamp: Seq<char> },
    Failed(Seq<char>),
}

impl View for ReaderAction {
    type V = ReaderActionView;

    open spec fn view(&self) -> ReaderActionView {
        match *self {
            ReaderAction::Send(message) => ReaderActionView::Send(message@),
            ReaderAction::ReadLine => ReaderActionView::ReadLine,
            ReaderAction::Finish => ReaderActionView::Finish,
            ReaderAction::Fail(reason) => ReaderActionView::Fail(reason@),
        }
    }
}

impl View for ReaderEvent {
    type V = ReaderEventView;

    open spec fn view(&self) -> ReaderEventView {
        match *self {
            ReaderEvent::Sent => ReaderEventView::Sent,
            ReaderEvent::Refused(reason) => ReaderEventView::Refused(reason@),
            ReaderEvent::Line { bytes, line, timestamp } => ReaderEventView::Line {
                bytes,
                line: line@,
                timestamp: timestamp@,
            },
            ReaderEvent::Failed(reason) => ReaderEventView::Failed(reason@),
        }
    }
}

impl ReaderEvent {
    /// So many bytes were read just now, which make this line.
    pub fn line_now(bytes: usize, line: String) -> (event: ReaderEvent)
        ensures
            event@ matches ReaderEventView::Line { bytes: read, line: text, timestamp }
                && read == bytes && text == line@ && is_stamp(timestamp),
            event matches ReaderEvent::Line { timestamp: read, .. } && call_ensures(
                timestamp,
                (),
                read,
            ),
    {
        ReaderEvent::Line { bytes, line, timestamp: time_just_read() }
    }
}

impl ClientReader {
    /// The client that is read.
    pub open spec fn client(self) -> i32 {
        match self {
            ClientReader::Joining { id } => id,
            ClientReader::Reading { id } => id,
            ClientReader::Relaying { id } => id,
            ClientReader::Leaving { id } => id,
            ClientReader::Ended { id } => id,
        }
    }

    /// Whether `event` can come of what the reader does here.
    pub open spec fn expects(self, event: ReaderEventView) -> bool {
        match self {
            ClientReader::Reading { id } => event is Line || event is Failed,
            ClientReader::Ended { id } => false,
            _ => event is Sent || event is Refused,
        }
    }

    /// Where the reader stands after `event`, and what it does next.
    ///
    /// The end of the connection is a read of no bytes. A line of white space alone is passed
    /// over; of any other line all but the line end is said. A message that cannot be handed over
    /// ends the reader, but for the last one, at which it ends anyway.
    pub open spec fn next(self, event: ReaderEventView) -> (ClientReader, ReaderActionView) {
        let id = self.client();
        match (self, event) {
            (ClientReader::Joining { .. }, ReaderEventView::Refused(reason)) => (
                ClientReader::Ended { id },
                ReaderActionView::Fail("failed to send join msg: "@ + reason),
            ),
            (ClientReader::Relaying { .. }, ReaderEventView::Refused(reason)) => (
                ClientReader::Ended { id },
                ReaderActionView::Fail("failed to send broadcast msg: "@ + reason),
            ),
            (ClientReader::Leaving { .. }, _) => (
                ClientReader::Ended { id },
                ReaderActionView::Finish,
            ),
            (ClientReader::Reading { .. }, ReaderEventView::Failed(reason)) => (
                ClientReader::Ended { id },
                ReaderActionView::Fail(reason),
            ),
            (
                ClientReader::Reading { .. },
                ReaderEventView::Line { bytes, line, timestamp },
            ) => if bytes == 0 {
                (
                    ClientReader::Leaving { id },
                    ReaderActionView::Send(MessageView::ClientLeft { id, timestamp }),
                )
            } else if is_blank(line) {
                (ClientReader::Reading { id }, ReaderActionView::ReadLine)
            } else {
                (
                    ClientReader::Relaying { id },
                    ReaderActionView::Send(
                        MessageView::Broadcast { from_id: id, text: line_text(line), timestamp },
                    ),
                )
            },
            _ => (ClientReader::Reading { id }, ReaderActionView::ReadLine),
        }
    }

    /// The reader of a client that has just come: the broadcaster is told so.
    pub fn start(id: i32, timestamp: String) -> (started: (ClientReader, ReaderAction))
        ensures
            started.0 == (ClientReader::Joining { id }),
            started.1 == ReaderAction::Send(ServerMessage::ClientJoined { id, timestamp }),
            started.1@ == ReaderActionView::Send(
                MessageView::ClientJoined { id, timestamp: timestamp@ },
            ),
    {
        (
            ClientReader::Joining { id },
            ReaderAction::Send(ServerMessage::ClientJoined { id, timestamp }),
        )
    }

    /// The reader of a client that comes now.
    pub fn start_now(id: i32) -> (started: (ClientReader, ReaderAction))
        ensures
            started.0 == (ClientReader::Joining { id }),
            started.1@ matches ReaderActionView::Send(
                MessageView::ClientJoined { id: joined, timestamp },
            ) && joined == id && is_stamp(timestamp),
            started.1 matches ReaderAction::Send(
                ServerMessage::ClientJoined { id: joined, timestamp: read },
            ) && call_ensures(timestamp, (), read),
    {
        ClientReader::start(id, time_just_read())
    }

    /// Whether `event` can come of what the reader does here.
    pub fn is_expected(&self, event: &ReaderEvent) -> (yes: bool)
        ensures
            yes == self.expects(event@),
    {
        match self {
            ClientReader::Reading { id: _ } => match event {
                ReaderEvent::Line { bytes: _, line: _, timestamp: _ } => true,
                ReaderEvent::Failed(_) => true,
                _ => false,
            },
            ClientReader::Ended { id: _ } => false,
            _ => match event {
                ReaderEvent::Sent => true,
                ReaderEvent::Refused(_) => true,
                _ => false,
            },
        }
    }

    /// Takes in what came of the last action, and says what to do next.
    pub fn step(self, event: ReaderEvent) -> (next: (ClientReader, ReaderAction))
        requires
            self.expects(event@),
        ensures
            next.0 == self.next(event@).0,
            next.1@ == self.next(event@).1,
    {
        match self {
            ClientReader::Joining { id } => match event {
                ReaderEvent::Refused(reason) => {
                    let mut report = "failed to send join msg: ".to_owned();
                    report.append(reason.as_str());
                    (ClientReader::Ended { id }, ReaderAction::Fail(report))
                },
                _ => (ClientReader::Reading { id }, ReaderAction::ReadLine),
            },
            ClientReader::Reading { id } => match event {
                ReaderEvent::Line { bytes, line, timestamp } => {
                    if bytes == 0 {
                        let message = ServerMessage::ClientLeft { id, timestamp };
                        return (ClientReader::Leaving { id }, ReaderAction::Send(message));
                    }
                    if blank(line.as_str()) {
                        return (ClientReader::Reading { id }, ReaderAction::ReadLine);
                    }
                    let text = take_line_text(line.as_str()).to_owned();
                    let message = ServerMessage::Broadcast { from_id: id, text, timestamp };
                    (ClientReader::Relaying { id }, ReaderAction::Send(message))
                },
                ReaderEvent::Failed(reason) => (
                    ClientReader::Ended { id },
                    ReaderAction::Fail(reason),
                ),
                _ => unreached(),
            },
            ClientReader::Relaying { id } => match event {
                ReaderEvent::Refused(reason) => {
                    let mut report = "failed to send broadcast msg: ".to_owned();
                    report.append(reason.as_str());
                    (ClientReader::Ended { id }, ReaderAction::Fail(report))
                },
                _ => (ClientReader::Reading { id }, ReaderAction::ReadLine),
            },
            ClientReader::Leaving { id } => (ClientReader::Ended { id }, ReaderAction::Finish),
            ClientReader::Ended { id: _ } => unreached(),
        }
    }
}

/// Where a reader stands after a series of events, and what it did in answer to them.
pub open spec fn reader_run(reader: ClientReader, events: Seq<ReaderEventView>) -> (
    ClientReader,
    Seq<ReaderActionView>,
)
    decreases events.len(),
{
    if events.len() == 0 {
        (reader, Seq::empty())
    } else {
        let before = reader_run(reader, events.drop_last());
        let step = before.0.next(events.last());
        (step.0, before.1.push(step.1))
    }
}

/// Whether each of a series of events can come where it comes.
pub open spec fn reader_expects_all(reader: ClientReader, events: Seq<ReaderEventView>) -> bool
    decreases events.len(),
{
    events.len() > 0 ==> reader_expects_all(reader, events.drop_last()) && reader_run(
        reader,
        events.drop_last(),
    ).0.expects(events.last())
}

/// The messages among a series of actions.
pub open spec fn messages(actions: Seq<ReaderActionView>) -> Seq<MessageView>
    decreases actions.len(),
{
    if actions.len() == 0 {
        Seq::empty()
    } else {
        match actions.last() {
            ReaderActionView::Send(message) => messages(actions.drop_last()).push(message),
            _ => messages(actions.drop_last()),
        }
    }
}

/// A line that came over the connection, and when.
pub struct LineRead {
    pub bytes: usize,
    pub line: Seq<char>,
    pub timestamp: Seq<char>,
}

/// The events of a connection on which these lines come and every message is handed over.
pub open spec fn line_events(lines: Seq<LineRead>) -> Seq<ReaderEventView>
    decreases lines.len(),
{
    if lines.len() == 0 {
        Seq::empty()
    } else {
        let l = lines.last();
        let event = ReaderEventView::Line { bytes: l.bytes, line: l.line, timestamp: l.timestamp };
        let before = line_events(lines.drop_last()).push(event);
        if is_blank(l.line) {
            before
        } else {
            before.push(ReaderEventView::Sent)
        }
    }
}

/// What a client says with these lines: one message for each line that is not blank.
pub open spec fn said(id: i32, lines: Seq<LineRead>) -> Seq<MessageView>
    decreases lines.len(),
{
    if lines.len() == 0 {
        Seq::empty()
    } else {
        let l = lines.last();
        let before = said(id, lines.drop_last());
        if is_blank(l.line) {
            before
        } else {
            before.push(
                MessageView::Broadcast {
                    from_id: id,
                    text: line_text(l.line),
                    timestamp: l.timestamp,
                },
            )
        }
    }
}

/// Whether the message is of the client `id`.
pub open spec fn is_of(message: MessageView, id: i32) -> bool {
    match message {
        MessageView::Broadcast { from_id, .. } => from_id == id,
        MessageView::ClientJoined { id: joined, .. } => joined == id,
        MessageView::ClientLeft { id: left, .. } => left == id,
    }
}

/// From first to last the broadcaster hears of a client: that it has come; what it said, a
/// message for every line that is not blank, in order, and none for the others; that it has gone.
pub proof fn law_whole_conversation_is_passed_on(
    id: i32,
    joined: Seq<char>,
    lines: Seq<LineRead>,
    left: Seq<char>,
)
    requires
        forall|i: int| 0 <= i < lines.len() ==> (#[trigger] lines[i]).bytes > 0,
    ensures
        ({
            let events = seq![ReaderEventView::Sent] + line_events(lines) + seq![
                ReaderEventView::Line { bytes: 0, line: Seq::empty(), timestamp: left },
                ReaderEventView::Sent,
            ];
            let start = ReaderActionView::Send(MessageView::ClientJoined { id, timestamp: joined });
            let run = reader_run(ClientReader::Joining { id }, events);
            &&& reader_expects_all(ClientReader::Joining { id }, events)
            &&& run.0 == (ClientReader::Ended { id })
            &&& run.1.last() == ReaderActionView::Finish
            &&& messages(seq![start] + run.1) == seq![
                MessageView::ClientJoined { id, timestamp: joined },
            ] + said(id, lines) + seq![MessageView::ClientLeft { id, timestamp: left }]
        }),
{
    let reader = ClientReader::Joining { id };
    let start = ReaderActionView::Send(MessageView::ClientJoined { id, timestamp: joined });
    let talk = seq![ReaderEventView::Sent] + line_events(lines);
    let end = ReaderEventView::Line { bytes: 0, line: Seq::empty(), timestamp: left };
    let events = talk + seq![end, ReaderEventView::Sent];
    lemma_lines_are_passed_on(id, joined, lines);
    let talked = reader_run(reader, talk);
    assert(talk.push(end).drop_last() == talk);
    assert(events.drop_last() == talk.push(end));
    let ended = reader_run(reader, talk.push(end));
    assert(ended.0 == (ClientReader::Leaving { id }));
    assert((seq![start] + ended.1).drop_last() == seq![start] + talked.1);
    assert(events.last() == ReaderEventView::Sent);
    let run = reader_run(reader, events);
    assert((seq![start] + run.1).drop_last() == seq![start] + ended.1);
    assert((seq![start] + run.1).last() == ReaderActionView::Finish);
    let message = MessageView::ClientLeft { id, timestamp: left };
    assert((seq![start] + ended.1).last() == ReaderActionView::Send(message));
    assert(messages(seq![start] + ended.1) == messages(seq![start] + talked.1).push(message));
    assert(messages(seq![start] + run.1) == messages(seq![start] + ended.1));
    assert(reader_expects_all(reader, talk.push(end)));
    assert(reader_expects_all(reader, events));
}

proof fn lemma_lines_are_passed_on(id: i32, joined: Seq<char>, lines: Seq<LineRead>)
    requires
        forall|i: int| 0 <= i < lines.len() ==> (#[trigger] lines[i]).bytes > 0,
    ensures
        ({
            let talk = seq![ReaderEventView::Sent] + line_events(lines);
            let start = ReaderActionView::Send(MessageView::ClientJoined { id, timestamp: joined });
            let run = reader_run(ClientReader::Joining { id }, talk);
            &&& reader_expects_all(ClientReader::Joining { id }, talk)
            &&& run.0 == (ClientReader::Reading { id })
            &&& messages(seq![start] + run.1) == seq![
                MessageView::ClientJoined { id, timestamp: joined },
            ] + said(id, lines)
        }),
    decreases lines.len(),
{
    let reader = ClientReader::Joining { id };
    let start = ReaderActionView::Send(MessageView::ClientJoined { id, timestamp: joined });
    let talk = seq![ReaderEventView::Sent] + line_events(lines);
    let run = reader_run(reader, talk);
    if lines.len() == 0 {
        let none = Seq::<ReaderEventView>::empty();
        assert(talk.drop_last() == none);
        assert(reader_run(reader, none).0 == reader);
        assert(reader_expects_all(reader, none));
        assert(run.0 == (ClientReader::Reading { id }));
        assert(reader_expects_all(reader, talk));
        assert((seq![start] + run.1).drop_last() == seq![start]);
        assert((seq![start] + run.1).last() == ReaderActionView::ReadLine);
        assert(seq![start].drop_last() == Seq::<ReaderActionView>::empty());
        assert(messages(seq![start].drop_last()) == Seq::<MessageView>::empty());
        assert(messages(seq![start]) == seq![MessageView::ClientJoined { id, timestamp: joined }]);
    } else {
        let l = lines.last();
        let earlier = lines.drop_last();
        assert forall|i: int| 0 <= i < earlier.len() implies (#[trigger] earlier[i]).bytes > 0 by {
            assert(earlier[i] == lines[i]);
        }
        lemma_lines_are_passed_on(id, joined, earlier);
        assert(lines[lines.len() - 1].bytes > 0);
        let before = seq![ReaderEventView::Sent] + line_events(earlier);
        let heard = reader_run(reader, before);
        let event = ReaderEventView::Line { bytes: l.bytes, line: l.line, timestamp: l.timestamp };
        assert(before.push(event).drop_last() == before);
        let read = reader_run(reader, before.push(event));
        assert((seq![start] + read.1).drop_last() == seq![start] + heard.1);
        assert(reader_expects_all(reader, before.push(event)));
        if is_blank(l.line) {
            assert(talk == before.push(event));
            assert((seq![start] + read.1).last() == ReaderActionView::ReadLine);
            assert(messages(seq![start] + run.1) == messages(seq![start] + heard.1));
        } else {
            assert(talk == before.push(event).push(ReaderEventView::Sent));
            assert(talk.drop_last() == before.push(event));
            assert(reader_expects_all(reader, talk));
            assert((seq![start] + run.1).drop_last() == seq![start] + read.1);
            assert((seq![start] + run.1).last() == ReaderActionView::ReadLine);
            let message = MessageView::Broadcast {
                from_id: id,
                text: line_text(l.line),
                timestamp: l.timestamp,
            };
            assert((seq![start] + read.1).last() == ReaderActionView::Send(message));
            assert(messages(seq![start] + read.1) == messages(seq![start] + heard.1).push(message));
            assert(messages(seq![start] + run.1) == messages(seq![start] + read.1));
        }
    }
}

/// A reader passes on messages of its own client alone, and what it passes on as said has a text
/// that is not blank and does not end in a line end.
pub proof fn law_reader_speaks_for_its_client(reader: ClientReader, event: ReaderEventView)
    ensures
        reader.next(event).0.client() == reader.client(),
        reader.next(event).1 matches ReaderActionView::Send(message) ==> is_of(
            message,
            reader.client(),
        ),
        reader.next(event).1 matches ReaderActionView::Send(
            MessageView::Broadcast { text, .. },
        ) ==> !is_blank(text) && text.len() > 0 && !is_line_end(text.last()),
{
    if let ReaderEventView::Line { bytes, line, timestamp } = event {
        lemma_drop_trailing(line, |c: char| is_line_end(c));
        lemma_text_of_a_line(line);
    }
}

/// A line of white space alone is passed over, whoever sends it, and the next line is awaited.
pub proof fn law_blanks_are_passed_over(
    id: i32,
    bytes: usize,
    line: Seq<char>,
    timestamp: Seq<char>,
)
    requires
        bytes > 0,
        forall|i: int| 0 <= i < line.len() ==> is_white_space(#[trigger] line[i]),
    ensures
        ({
            let next = ClientReader::Reading { id }.next(
                ReaderEventView::Line { bytes, line, timestamp },
            );
            next == (ClientReader::Reading { id }, ReaderActionView::ReadLine)
        }),
{
}

/// Once the news that the client has gone was given, nothing more is passed on.
pub proof fn law_nothing_follows_the_departure(reader: ClientReader, events: Seq<ReaderEventView>)
    requires
        reader is Leaving || reader is Ended,
        reader_expects_all(reader, events),
    ensures
        messages(reader_run(reader, events).1).len() == 0,
    decreases events.len(),
{
    if events.len() > 0 {
        law_nothing_follows_the_departure(reader, events.drop_last());
        let before = reader_run(reader, events.drop_last());
        lemma_departed(reader, events.drop_last());
        assert(reader_run(reader, events).1.drop_last() == before.1);
    }
}

proof fn lemma_departed(reader: ClientReader, events: Seq<ReaderEventView>)
    requires
        reader is Leaving || reader is Ended,
        reader_expects_all(reader, events),
    ensures
        reader_run(reader, events).0 is Leaving || reader_run(reader, events).0 is Ended,
    decreases events.len(),
{
    if events.len() > 0 {
        lemma_departed(reader, events.drop_last());
    }
}

/// What a read makes of a connection. No bytes: the client has gone. White space alone: the next
/// line is read. Anything else: the line is said, by this client and at this time, with nothing
/// but its line end taken off.
pub proof fn law_what_a_read_makes_of_a_line(
    id: i32,
    bytes: usize,
    line: Seq<char>,
    timestamp: Seq<char>,
    i: int,
)
    ensures
        ({
            let next = ClientReader::Reading { id }.next(
                ReaderEventView::Line { bytes, line, timestamp },
            );
            &&& bytes == 0 ==> next.0 == (ClientReader::Leaving { id }) && next.1
                == ReaderActionView::Send(MessageView::ClientLeft { id, timestamp })
            &&& bytes > 0 && (forall|k: int|
                0 <= k < line.len() ==> is_white_space(#[trigger] line[k])) ==> next.0 == (
            ClientReader::Reading { id }) && next.1 == ReaderActionView::ReadLine
            &&& bytes > 0 && 0 <= i < line.len() && !is_white_space(line[i]) ==> {
                &&& next.0 == (ClientReader::Relaying { id })
                &&& next.1 matches ReaderActionView::Send(
                    MessageView::Broadcast { from_id, text, timestamp: said },
                ) && {
                    &&& from_id == id
                    &&& said == timestamp
                    &&& 0 < text.len() <= line.len()
                    &&& text == line.subrange(0, text.len() as int)
                    &&& text.last() != '\n' && text.last() != '\r'
                    &&& forall|k: int|
                        text.len() <= k < line.len() ==> #[trigger] line[k] == '\n' || line[k]
                            == '\r'
                }
            }
        }),
{
    law_line_text_cuts_the_line_end_alone(line);
    if 0 <= i < line.len() && !is_white_space(line[i]) {
        lemma_text_of_a_line(line);
        law_white_space_by_code_point(line[i]);
        assert(!is_blank(line));
        if line_text(line).len() == 0 {
            assert(line[i] == '\n' || line[i] == '\r');
        }
    }
}

/// What becomes of a message that is handed over, or is not. Handed over, the next line is read,
/// but for the last message. Not handed over, the reader ends with the reason behind words that
/// say which message it was; the last message alone may be lost.
pub proof fn law_what_becomes_of_a_message(id: i32, reason: Seq<char>)
    ensures
        ({
            let joining = ClientReader::Joining { id };
            let relaying = ClientReader::Relaying { id };
            let leaving = ClientReader::Leaving { id };
            let read_on = (ClientReader::Reading { id }, ReaderActionView::ReadLine);
            let finish = (ClientReader::Ended { id }, ReaderActionView::Finish);
            let sent = ReaderEventView::Sent;
            let refused = ReaderEventView::Refused(reason);
            &&& joining.next(sent) == read_on
            &&& relaying.next(sent) == read_on
            &&& leaving.next(sent) == finish
            &&& leaving.next(refused) == finish
            &&& joining.next(refused).0 == (ClientReader::Ended { id })
            &&& joining.next(refused).1 == ReaderActionView::Fail(
                "failed to send join msg: "@ + reason,
            )
            &&& relaying.next(refused).0 == (ClientReader::Ended { id })
            &&& relaying.next(refused).1 == ReaderActionView::Fail(
                "failed to send broadcast msg: "@ + reason,
            )
        }),
{
}

/// A connection that cannot be read ends the reader, for the reason that was given, and no news
/// of the client goes out.
pub proof fn law_failed_read_is_the_end(id: i32, reason: Seq<char>)
    ensures
        ({
            let next = ClientReader::Reading { id }.next(ReaderEventView::Failed(reason));
            next.0 == (ClientReader::Ended { id }) && next.1 == ReaderActionView::Fail(reason)
        }),
{
}

/// Where a message is on its way it is handed over or refused, where a line is awaited it comes
/// or fails, and nothing else can happen; at the end nothing can.
pub proof fn law_what_a_reader_expects(id: i32, event: ReaderEventView)
    ensures
        ({
            let of_sending = match event {
                ReaderEventView::Sent => true,
                ReaderEventView::Refused(_) => true,
                ReaderEventView::Line { .. } => false,
                ReaderEventView::Failed(_) => false,
            };
            &&& ClientReader::Joining { id }.expects(event) == of_sending
            &&& ClientReader::Relaying { id }.expects(event) == of_sending
            &&& ClientReader::Leaving { id }.expects(event) == of_sending
            &&& ClientReader::Reading { id }.expects(event) == !of_sending
            &&& !ClientReader::Ended { id }.expects(event)
        }),
{
}

/// The contents of actions and events are their parts.
pub proof fn law_reader_contents(
    message: ServerMessage,
    reason: String,
    bytes: usize,
    line: String,
    timestamp: String,
)
    ensures
        ReaderAction::Send(message)@ == ReaderActionView::Send(message@),
        ReaderAction::ReadLine@ == ReaderActionView::ReadLine,
        ReaderAction::Finish@ == ReaderActionView::Finish,
        ReaderAction::Fail(reason)@ == ReaderActionView::Fail(reason@),
        ReaderEvent::Sent@ == ReaderEventView::Sent,
        ReaderEvent::Refused(reason)@ == ReaderEventView::Refused(reason@),
        (ReaderEvent::Line { bytes, line, timestamp })@ == (ReaderEventView::Line {
            bytes,
            line: line@,
            timestamp: timestamp@,
        }),
        ReaderEvent::Failed(reason)@ == ReaderEventView::Failed(reason@),
{
}

} // verus!
