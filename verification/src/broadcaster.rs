//! The broadcaster: what it makes of the messages of the readers.

use crate::message::{
    law_announcements_spelled_out, law_log_entries_spelled_out, MessageView, ServerMessage,
};
use crate::number::{decimal, decimal_text, signed_decimal};
use crate::roster::{
    changed, is_absent, is_told, joins, law_everyone_else_is_told_once, lemma_absent_after_leave,
    lemma_absent_stays_absent, told, told_places, Change, Client,
};
use vstd::pervasive::unreached;
use vstd::prelude::*;

verus! {

/// Where the broadcaster stands. It starts at [`Broadcaster::Receiving`], with the action
/// [`BroadcasterAction::Receive`], and goes on with [`Broadcaster::step`]: each time it says what
/// to do next, and is told what came of it.
pub enum Broadcaster {
    /// The next message is awaited.
    Receiving,
    /// A client is being taken out of the roster, so that the others can be told `text`.
    Removing { text: String },
    /// The roster is being opened, to tell the clients `text`.
    Opening { text: String },
    /// `text` is being written to the clients at `places`. The last write that was begun is the
    /// one before `begun`.
    Writing { places: Vec<usize>, begun: usize, text: String },
    /// There is nothing more to do.
    Ended,
}

/// What the broadcaster does next.
pub enum BroadcasterAction {
    /// Give the roster free, and wait for the next message.
    Receive,
    /// Take the client out of the roster, and give the roster free.
    Remove { id: i32 },
    /// Take hold of the roster, and find the places of the clients that are told.
    Open { untold: Option<i32> },
    /// Write the text to the client at this place of the roster.
    Write { place: usize, text: String },
    /// Stop, with all done.
    Finish,
    /// Stop, with this for a reason.
    Fail(String),
}

/// What came of the action of the broadcaster.
pub enum BroadcasterEvent {
    /// There is a message.
    Message(ServerMessage),
    /// No reader is left to send one.
    Closed,
    /// The client is out of the roster, which now has so many.
    Removed { live: usize },
    /// These are the places of the clients that are told.
    Opened { places: Vec<usize> },
    /// The text is written.
    Written,
    /// The roster cannot be used, for this reason.
    RosterPoisoned(String),
    /// The way to the client cannot be used, for this reason.
    WriterPoisoned(String),
    /// The text could not be written, for this reason.
    WriteFailed(String),
}

/// The contents of a [`Broadcaster`].
#[verifier::ext_equal]
pub enum BroadcasterView {
    Receiving,
    Removing { text: Seq<char> },
    Opening { text: Seq<char> },
    Writing { places: Seq<usize>, begun: usize, text: Seq<char> },
    Ended,
}

/// The contents of a [`BroadcasterAction`].
#[verifier::ext_equal]
pub enum BroadcasterActionView {
    Receive,
    Remove { id: i32 },
    Open { untold: Option<i32> },
    Write { place: usize, text: Seq<char> },
    Finish,
    Fail(Seq<char>),
}

/// The contents of a [`BroadcasterEvent`].
#[verifier::ext_equal]
pub enum BroadcasterEventView {
    Message(MessageView),
    Closed,
    Removed { live: usize },
    Opened { places: Seq<usize> },
    Written,
    RosterPoisoned(Seq<char>),
    WriterPoisoned(Seq<char>),
    WriteFailed(Seq<char>),
}

/// What the broadcaster answers to an event: where it then stands, what it logs first, if
/// anything, and what it does next.
pub struct BroadcasterStep {
    pub next: Broadcaster,
    pub log: Option<String>,
    pub action: BroadcasterAction,
}

/// The contents of a [`BroadcasterStep`].
#[verifier::ext_equal]
pub struct BroadcasterStepView {
    pub next: BroadcasterView,
    pub log: Option<Seq<char>>,
    pub action: BroadcasterActionView,
}

impl View for Broadcaster {
    type V = BroadcasterView;

    open spec fn view(&self) -> BroadcasterView {
        match *self {
            Broadcaster::Receiving => BroadcasterView::Receiving,
            Broadcaster::Removing { text } => BroadcasterView::Removing { text: text@ },
            Broadcaster::Opening { text } => BroadcasterView::Opening { text: text@ },
            Broadcaster::Writing { places, begun, text } => BroadcasterView::Writing {
                places: places@,
                begun,
                text: text@,
            },
            Broadcaster::Ended => BroadcasterView::Ended,
        }
    }
}

impl View for BroadcasterAction {
    type V = BroadcasterActionView;

    open spec fn view(&self) -> BroadcasterActionView {
        match *self {
            BroadcasterAction::Receive => BroadcasterActionView::Receive,
            BroadcasterAction::Remove { id } => BroadcasterActionView::Remove { id },
            BroadcasterAction::Open { untold } => BroadcasterActionView::Open { untold },
            BroadcasterAction::Write { place, text } => BroadcasterActionView::Write {
                place,
                text: text@,
            },
            BroadcasterAction::Finish => BroadcasterActionView::Finish,
            BroadcasterAction::Fail(reason) => BroadcasterActionView::Fail(reason@),
        }
    }
}

impl View for BroadcasterEvent {
    type V = BroadcasterEventView;

    open spec fn view(&self) -> BroadcasterEventView {
        match *self {
            BroadcasterEvent::Message(message) => BroadcasterEventView::Message(message@),
            BroadcasterEvent::Closed => BroadcasterEventView::Closed,
            BroadcasterEvent::Removed { live } => BroadcasterEventView::Removed { live },
            BroadcasterEvent::Opened { places } => BroadcasterEventView::Opened {
                places: places@,
            },
            BroadcasterEvent::Written => BroadcasterEventView::Written,
            BroadcasterEvent::RosterPoisoned(r) => BroadcasterEventView::RosterPoisoned(r@),
            BroadcasterEvent::WriterPoisoned(r) => BroadcasterEventView::WriterPoisoned(r@),
            BroadcasterEvent::WriteFailed(r) => BroadcasterEventView::WriteFailed(r@),
        }
    }
}

impl View for BroadcasterStep {
    type V = BroadcasterStepView;

    open spec fn view(&self) -> BroadcasterStepView {
        BroadcasterStepView {
            next: self.next@,
            log: match self.log {
                Some(entry) => Some(entry@),
                None => None,
            },
            action: self.action@,
        }
    }
}

/// What the log says of the number of clients after one has left.
pub open spec fn live_entry(live: nat) -> Seq<char> {
    "Total number of clients live: "@ + decimal(live)
}

/// The last thing that the broadcaster logs.
pub open spec fn closing_entry() -> Seq<char> {
    "Broadcaster exiting: all client read thread senders dropped. Shutting down broadcasting"@
}

impl BroadcasterView {
    /// Whether `event` can come of what the broadcaster does here.
    pub open spec fn expects(self, event: BroadcasterEventView) -> bool {
        match self {
            BroadcasterView::Receiving => event is Message || event is Closed,
            BroadcasterView::Removing { .. } => event is Removed || event is RosterPoisoned,
            BroadcasterView::Opening { .. } => event is Opened || event is RosterPoisoned,
            BroadcasterView::Writing { .. } => event is Written || event is WriterPoisoned
                || event is WriteFailed,
            BroadcasterView::Ended => false,
        }
    }

    /// The next write to the clients at `places`, after so many; where none is left, the next
    /// message is awaited.
    pub open spec fn write_on(
        places: Seq<usize>,
        written: int,
        text: Seq<char>,
    ) -> BroadcasterStepView {
        if written < places.len() {
            BroadcasterStepView {
                next: BroadcasterView::Writing { places, begun: (written + 1) as usize, text },
                log: None,
                action: BroadcasterActionView::Write { place: places[written], text },
            }
        } else {
            BroadcasterStepView {
                next: BroadcasterView::Receiving,
                log: None,
                action: BroadcasterActionView::Receive,
            }
        }
    }

    /// The end, for a reason.
    pub open spec fn failed(reason: Seq<char>) -> BroadcasterStepView {
        BroadcasterStepView {
            next: BroadcasterView::Ended,
            log: None,
            action: BroadcasterActionView::Fail(reason),
        }
    }

    /// What the broadcaster answers to `event`.
    ///
    /// A message is logged. Where a client has left, it is taken out of the roster before the
    /// others are told. All that are told are written to in turn; the first that cannot be is
    /// the end of the broadcaster.
    pub open spec fn answer(self, event: BroadcasterEventView) -> BroadcasterStepView {
        match event {
            BroadcasterEventView::Message(message) => match message.leaver() {
                Some(id) => BroadcasterStepView {
                    next: BroadcasterView::Removing { text: message.announcement() },
                    log: Some(message.log_entry()),
                    action: BroadcasterActionView::Remove { id },
                },
                None => BroadcasterStepView {
                    next: BroadcasterView::Opening { text: message.announcement() },
                    log: Some(message.log_entry()),
                    action: BroadcasterActionView::Open { untold: message.untold() },
                },
            },
            BroadcasterEventView::Closed => BroadcasterStepView {
                next: BroadcasterView::Ended,
                log: Some(closing_entry()),
                action: BroadcasterActionView::Finish,
            },
            BroadcasterEventView::Removed { live } => BroadcasterStepView {
                next: BroadcasterView::Opening { text: self->Removing_text },
                log: Some(live_entry(live as nat)),
                action: BroadcasterActionView::Open { untold: None },
            },
            BroadcasterEventView::Opened { places } => Self::write_on(
                places,
                0,
                self->Opening_text,
            ),
            BroadcasterEventView::Written => Self::write_on(
                self->places,
                self->begun as int,
                self->Writing_text,
            ),
            BroadcasterEventView::RosterPoisoned(reason) => Self::failed(
                "clients lock poisoned: "@ + reason,
            ),
            BroadcasterEventView::WriterPoisoned(reason) => Self::failed(
                "writer lock poisoned: "@ + reason,
            ),
            BroadcasterEventView::WriteFailed(reason) => Self::failed(reason),
        }
    }
}

fn write_on(places: Vec<usize>, written: usize, text: String) -> (step: BroadcasterStep)
    ensures
        step@ == BroadcasterView::write_on(places@, written as int, text@),
{
    if written < places.len() {
        let place: usize = places[written];
        BroadcasterStep {
            log: None,
            action: BroadcasterAction::Write { place, text: text.clone() },
            next: Broadcaster::Writing { places, begun: written + 1, text },
        }
    } else {
        BroadcasterStep {
            next: Broadcaster::Receiving,
            log: None,
            action: BroadcasterAction::Receive,
        }
    }
}

fn failed(reason: String) -> (step: BroadcasterStep)
    ensures
        step@ == BroadcasterView::failed(reason@),
{
    BroadcasterStep { next: Broadcaster::Ended, log: None, action: BroadcasterAction::Fail(reason) }
}

impl Broadcaster {
    /// Whether `event` can come of what the broadcaster does here.
    pub fn is_expected(&self, event: &BroadcasterEvent) -> (yes: bool)
        ensures
            yes == self@.expects(event@),
    {
        match self {
            Broadcaster::Receiving => match event {
                BroadcasterEvent::Message(_) => true,
                BroadcasterEvent::Closed => true,
                _ => false,
            },
            Broadcaster::Removing { text: _ } => match event {
                BroadcasterEvent::Removed { live: _ } => true,
                BroadcasterEvent::RosterPoisoned(_) => true,
                _ => false,
            },
            Broadcaster::Opening { text: _ } => match event {
                BroadcasterEvent::Opened { places: _ } => true,
                BroadcasterEvent::RosterPoisoned(_) => true,
                _ => false,
            },
            Broadcaster::Writing { places: _, begun: _, text: _ } => match event {
                BroadcasterEvent::Written => true,
                BroadcasterEvent::WriterPoisoned(_) => true,
                BroadcasterEvent::WriteFailed(_) => true,
                _ => false,
            },
            Broadcaster::Ended => false,
        }
    }

    /// Takes in what came of the last action, and says what to log and what to do next.
    pub fn step(self, event: BroadcasterEvent) -> (step: BroadcasterStep)
        requires
            self@.expects(event@),
        ensures
            step@ == self@.answer(event@),
    {
        match event {
            BroadcasterEvent::Message(message) => {
                let entry = message.log_entry();
                let text = message.announcement();
                match message.leaver() {
                    Some(id) => BroadcasterStep {
                        next: Broadcaster::Removing { text },
                        log: Some(entry),
                        action: BroadcasterAction::Remove { id },
                    },
                    None => BroadcasterStep {
                        next: Broadcaster::Opening { text },
                        log: Some(entry),
                        action: BroadcasterAction::Open { untold: message.untold() },
                    },
                }
            },
            BroadcasterEvent::Closed => {
                let entry =
                    "Broadcaster exiting: all client read thread senders dropped. Shutting down broadcasting".to_owned();
                BroadcasterStep {
                    next: Broadcaster::Ended,
                    log: Some(entry),
                    action: BroadcasterAction::Finish,
                }
            },
            BroadcasterEvent::Removed { live } => {
                let mut entry = "Total number of clients live: ".to_owned();
                let number = decimal_text(live as u64);
                entry.append(number.as_str());
                match self {
                    Broadcaster::Removing { text } => BroadcasterStep {
                        next: Broadcaster::Opening { text },
                        log: Some(entry),
                        action: BroadcasterAction::Open { untold: None },
                    },
                    _ => unreached(),
                }
            },
            BroadcasterEvent::Opened { places } => match self {
                Broadcaster::Opening { text } => write_on(places, 0, text),
                _ => unreached(),
            },
            BroadcasterEvent::Written => match self {
                Broadcaster::Writing { places, begun, text } => write_on(places, begun, text),
                _ => unreached(),
            },
            BroadcasterEvent::RosterPoisoned(reason) => {
                let mut report = "clients lock poisoned: ".to_owned();
                report.append(reason.as_str());
                failed(report)
            },
            BroadcasterEvent::WriterPoisoned(reason) => {
                let mut report = "writer lock poisoned: ".to_owned();
                report.append(reason.as_str());
                failed(report)
            },
            BroadcasterEvent::WriteFailed(reason) => failed(reason),
        }
    }
}

/// Where the broadcaster stands after a series of events, and what it did in answer to them.
pub open spec fn broadcaster_run(
    broadcaster: BroadcasterView,
    events: Seq<BroadcasterEventView>,
) -> (BroadcasterView, Seq<BroadcasterActionView>)
    decreases events.len(),
{
    if events.len() == 0 {
        (broadcaster, Seq::empty())
    } else {
        let before = broadcaster_run(broadcaster, events.drop_last());
        let step = before.0.answer(events.last());
        (step.next, before.1.push(step.action))
    }
}

/// Whether each of a series of events can come where it comes.
pub open spec fn broadcaster_expects_all(
    broadcaster: BroadcasterView,
    events: Seq<BroadcasterEventView>,
) -> bool
    decreases events.len(),
{
    events.len() > 0 ==> broadcaster_expects_all(broadcaster, events.drop_last())
        && broadcaster_run(broadcaster, events.drop_last()).0.expects(events.last())
}

/// The writes among a series of actions: the places, in order, and the texts.
pub open spec fn writes(actions: Seq<BroadcasterActionView>) -> Seq<(usize, Seq<char>)>
    decreases actions.len(),
{
    if actions.len() == 0 {
        Seq::empty()
    } else {
        match actions.last() {
            BroadcasterActionView::Write { place, text } => writes(actions.drop_last()).push(
                (place, text),
            ),
            _ => writes(actions.drop_last()),
        }
    }
}

/// The events of a message up to the point at which the roster is open. A leaver's removal leaves
/// `live` clients, and `clients` is the roster as it is found when it is opened.
pub open spec fn taken<W>(message: MessageView, live: usize, clients: Seq<Client<W>>) -> Seq<
    BroadcasterEventView,
> {
    let first = seq![BroadcasterEventView::Message(message)];
    let removed = if message.leaver() is Some {
        first.push(BroadcasterEventView::Removed { live })
    } else {
        first
    };
    removed.push(BroadcasterEventView::Opened { places: told_places(clients, message.untold()) })
}

/// `events`, and then so many writes that succeed.
pub open spec fn written_on(events: Seq<BroadcasterEventView>, count: nat) -> Seq<
    BroadcasterEventView,
>
    decreases count,
{
    if count == 0 {
        events
    } else {
        written_on(events, (count - 1) as nat).push(BroadcasterEventView::Written)
    }
}

/// The announcement of a message, for each of these clients.
pub open spec fn announced_to<W>(message: MessageView, clients: Seq<Client<W>>) -> Seq<
    (Client<W>, Seq<char>),
> {
    clients.map_values(|c: Client<W>| (c, message.announcement()))
}

/// A message whose writes succeed is written once to every client of the roster that is to be
/// told, in the order of the roster, and to nobody else. The broadcaster then waits for the next
/// one.
pub proof fn law_message_reaches_everyone_else<W>(
    message: MessageView,
    live: usize,
    clients: Seq<Client<W>>,
)
    requires
        clients.len() <= usize::MAX,
    ensures
        ({
            let count = told_places(clients, message.untold()).len();
            let events = written_on(taken(message, live, clients), count);
            let run = broadcaster_run(BroadcasterView::Receiving, events);
            &&& broadcaster_expects_all(BroadcasterView::Receiving, events)
            &&& run.0 == BroadcasterView::Receiving
            &&& run.1.last() == BroadcasterActionView::Receive
            &&& writes(run.1).map_values(
                |w: (usize, Seq<char>)| (clients[w.0 as int], w.1),
            ) == announced_to(message, told(clients, message.untold()))
        }),
{
    let places = told_places(clients, message.untold());
    law_everyone_else_is_told_once(clients, message.untold());
    lemma_writes_so_far(message, live, clients, places.len());
    let events = written_on(taken(message, live, clients), places.len());
    let run = broadcaster_run(BroadcasterView::Receiving, events);
    let at = |i: usize| clients[i as int];
    let placed = |w: (usize, Seq<char>)| (clients[w.0 as int], w.1);
    let reached = told(clients, message.untold());
    assert(places.map_values(at) == reached);
    assert forall|k: int| 0 <= k < places.len() implies #[trigger] reached[k]
        == clients[places[k] as int] by {
        assert(places.map_values(at)[k] == at(places[k]));
    }
    assert(writes(run.1).map_values(placed) == announced_to(message, reached));
}

/// Where the broadcaster stands once the roster is open and `count` writes have succeeded.
proof fn lemma_writes_so_far<W>(
    message: MessageView,
    live: usize,
    clients: Seq<Client<W>>,
    count: nat,
)
    requires
        clients.len() <= usize::MAX,
        count <= told_places(clients, message.untold()).len(),
    ensures
        ({
            let places = told_places(clients, message.untold());
            let text = message.announcement();
            let events = written_on(taken(message, live, clients), count);
            let run = broadcaster_run(BroadcasterView::Receiving, events);
            let step = BroadcasterView::write_on(places, count as int, text);
            let begun = if count < places.len() {
                count + 1
            } else {
                count
            };
            &&& broadcaster_expects_all(BroadcasterView::Receiving, events)
            &&& run.1.len() > 0
            &&& run.0 == step.next
            &&& run.1.last() == step.action
            &&& writes(run.1) == Seq::new(begun as nat, |k: int| (places[k], text))
        }),
    decreases count,
{
    let start = BroadcasterView::Receiving;
    let places = told_places(clients, message.untold());
    let text = message.announcement();
    let opened = taken(message, live, clients);
    let events = written_on(opened, count);
    let run = broadcaster_run(start, events);
    lemma_place_count(clients, message.untold());
    if count == 0 {
        let none = Seq::<BroadcasterEventView>::empty();
        let first = seq![BroadcasterEventView::Message(message)];
        assert(first.drop_last() == none);
        assert(broadcaster_expects_all(start, none));
        assert(broadcaster_run(start, none).0 == start);
        let heard = broadcaster_run(start, first);
        assert(broadcaster_expects_all(start, first));
        assert(heard.1.drop_last() == Seq::<BroadcasterActionView>::empty());
        assert(writes(heard.1.drop_last()) == Seq::<(usize, Seq<char>)>::empty());
        assert(writes(heard.1) == Seq::<(usize, Seq<char>)>::empty());
        if message.leaver() is Some {
            let second = first.push(BroadcasterEventView::Removed { live });
            assert(second.drop_last() == first);
            let removed = broadcaster_run(start, second);
            assert(broadcaster_expects_all(start, second));
            assert(removed.1.drop_last() == heard.1);
            assert(writes(removed.1) == writes(heard.1));
            assert(opened.drop_last() == second);
            assert(run.1.drop_last() == removed.1);
        } else {
            assert(opened.drop_last() == first);
            assert(run.1.drop_last() == heard.1);
        }
    } else {
        lemma_writes_so_far(message, live, clients, (count - 1) as nat);
        let earlier = written_on(opened, (count - 1) as nat);
        let before = broadcaster_run(start, earlier);
        assert(events.drop_last() == earlier);
        assert(run.1.drop_last() == before.1);
    }
}

proof fn lemma_place_count<W>(clients: Seq<Client<W>>, untold: Option<i32>)
    ensures
        told_places(clients, untold).len() <= clients.len(),
    decreases clients.len(),
{
    if clients.len() > 0 {
        lemma_place_count(clients.drop_last(), untold);
    }
}

/// The first write that fails is the last thing that the broadcaster does: the clients before it
/// have the message, those behind it do not, the reason is that of the failure, and no event can
/// follow.
pub proof fn law_failed_write_is_the_end<W>(
    message: MessageView,
    live: usize,
    clients: Seq<Client<W>>,
    count: nat,
    failure: BroadcasterEventView,
)
    requires
        clients.len() <= usize::MAX,
        count < told_places(clients, message.untold()).len(),
        failure is WriterPoisoned || failure is WriteFailed,
    ensures
        ({
            let places = told_places(clients, message.untold());
            let events = written_on(taken(message, live, clients), count).push(failure);
            let run = broadcaster_run(BroadcasterView::Receiving, events);
            &&& broadcaster_expects_all(BroadcasterView::Receiving, events)
            &&& writes(run.1) == Seq::new(
                count + 1,
                |k: int| (places[k], message.announcement()),
            )
            &&& run.1.last() == BroadcasterActionView::Fail(
                match failure {
                    BroadcasterEventView::WriterPoisoned(reason) => "writer lock poisoned: "@
                        + reason,
                    _ => failure->WriteFailed_0,
                },
            )
            &&& forall|event: BroadcasterEventView| !#[trigger] run.0.expects(event)
        }),
{
    lemma_writes_so_far(message, live, clients, count);
    let earlier = written_on(taken(message, live, clients), count);
    let events = earlier.push(failure);
    assert(events.drop_last() == earlier);
    let run = broadcaster_run(BroadcasterView::Receiving, events);
    assert(run.1.drop_last() == broadcaster_run(BroadcasterView::Receiving, earlier).1);
}

/// A message that is told, with the number of clients that a leaver leaves behind and the roster
/// as it is found when it is opened.
pub struct Delivery<W> {
    pub message: MessageView,
    pub live: usize,
    pub clients: Seq<Client<W>>,
}

impl<W> Delivery<W> {
    /// The events of the message, where all writes succeed.
    pub open spec fn events(self) -> Seq<BroadcasterEventView> {
        written_on(
            taken(self.message, self.live, self.clients),
            told_places(self.clients, self.message.untold()).len(),
        )
    }

    /// The writes that the message calls for.
    pub open spec fn due(self) -> Seq<(usize, Seq<char>)> {
        told_places(self.clients, self.message.untold()).map_values(
            |place: usize| (place, self.message.announcement()),
        )
    }
}

/// The events of a series of messages, one after the other.
pub open spec fn delivered<W>(deliveries: Seq<Delivery<W>>) -> Seq<BroadcasterEventView>
    decreases deliveries.len(),
{
    if deliveries.len() == 0 {
        Seq::empty()
    } else {
        delivered(deliveries.drop_last()) + deliveries.last().events()
    }
}

/// The writes that a series of messages calls for, one message after the other.
pub open spec fn all_due<W>(deliveries: Seq<Delivery<W>>) -> Seq<(usize, Seq<char>)>
    decreases deliveries.len(),
{
    if deliveries.len() == 0 {
        Seq::empty()
    } else {
        all_due(deliveries.drop_last()) + deliveries.last().due()
    }
}

/// The broadcaster tells of the messages in the order in which they come, of each to the end
/// before the next, and when no reader is left it ends without an error.
pub proof fn law_messages_are_told_in_order<W>(deliveries: Seq<Delivery<W>>)
    requires
        forall|i: int| 0 <= i < deliveries.len() ==> (#[trigger] deliveries[i]).clients.len()
            <= usize::MAX,
    ensures
        ({
            let events = delivered(deliveries).push(BroadcasterEventView::Closed);
            let run = broadcaster_run(BroadcasterView::Receiving, events);
            &&& broadcaster_expects_all(BroadcasterView::Receiving, events)
            &&& writes(run.1) == all_due(deliveries)
            &&& run.1.last() == BroadcasterActionView::Finish
            &&& run.0 == BroadcasterView::Ended
        }),
{
    lemma_deliveries(deliveries);
    let before = delivered(deliveries);
    let events = before.push(BroadcasterEventView::Closed);
    assert(events.drop_last() == before);
    let run = broadcaster_run(BroadcasterView::Receiving, events);
    assert(run.1.drop_last() == broadcaster_run(BroadcasterView::Receiving, before).1);
}

proof fn lemma_deliveries<W>(deliveries: Seq<Delivery<W>>)
    requires
        forall|i: int| 0 <= i < deliveries.len() ==> (#[trigger] deliveries[i]).clients.len()
            <= usize::MAX,
    ensures
        ({
            let run = broadcaster_run(BroadcasterView::Receiving, delivered(deliveries));
            &&& broadcaster_expects_all(BroadcasterView::Receiving, delivered(deliveries))
            &&& writes(run.1) == all_due(deliveries)
            &&& run.0 == BroadcasterView::Receiving
        }),
    decreases deliveries.len(),
{
    if deliveries.len() > 0 {
        let earlier = deliveries.drop_last();
        let last = deliveries.last();
        assert forall|i: int| 0 <= i < earlier.len() implies (#[trigger] earlier[i]).clients.len()
            <= usize::MAX by {
            assert(earlier[i] == deliveries[i]);
        }
        lemma_deliveries(earlier);
        assert(deliveries[deliveries.len() - 1].clients.len() <= usize::MAX);
        let places = told_places(last.clients, last.message.untold());
        lemma_writes_so_far(last.message, last.live, last.clients, places.len());
        let start = BroadcasterView::Receiving;
        lemma_run_in_two(start, delivered(earlier), last.events());
        let first = broadcaster_run(start, delivered(earlier)).1;
        let second = broadcaster_run(start, last.events()).1;
        lemma_writes_in_two(first, second);
        assert(writes(second) == last.due());
    }
}

proof fn lemma_run_in_two(
    start: BroadcasterView,
    first: Seq<BroadcasterEventView>,
    second: Seq<BroadcasterEventView>,
)
    ensures
        ({
            let one = broadcaster_run(start, first);
            let two = broadcaster_run(one.0, second);
            let run = broadcaster_run(start, first + second);
            &&& run.0 == two.0
            &&& run.1 == one.1 + two.1
            &&& broadcaster_expects_all(start, first) && broadcaster_expects_all(one.0, second)
                ==> broadcaster_expects_all(start, first + second)
        }),
    decreases second.len(),
{
    if second.len() == 0 {
        assert(first + second == first);
    } else {
        lemma_run_in_two(start, first, second.drop_last());
        assert((first + second).drop_last() == first + second.drop_last());
        assert((first + second).last() == second.last());
    }
}

proof fn lemma_writes_in_two(
    first: Seq<BroadcasterActionView>,
    second: Seq<BroadcasterActionView>,
)
    ensures
        writes(first + second) == writes(first) + writes(second),
    decreases second.len(),
{
    if second.len() == 0 {
        assert(first + second == first);
    } else {
        lemma_writes_in_two(first, second.drop_last());
        assert((first + second).drop_last() == first + second.drop_last());
        assert((first + second).last() == second.last());
    }
}

/// Whether the roster of each delivery comes from the one before it, the first from `initial`, by
/// the changes that stand at its place, and a departure is among the changes of its delivery.
pub open spec fn rosters_follow<W>(
    initial: Seq<Client<W>>,
    deliveries: Seq<Delivery<W>>,
    changes: Seq<Seq<Change<W>>>,
) -> bool {
    &&& changes.len() == deliveries.len()
    &&& forall|i: int|
        0 <= i < deliveries.len() ==> (#[trigger] deliveries[i]).clients == changed(
            if i == 0 {
                initial
            } else {
                deliveries[i - 1].clients
            },
            changes[i],
        )
    &&& forall|i: int|
        0 <= i < deliveries.len() ==> ((#[trigger] deliveries[i]).message.leaver() matches Some(
            id,
        ) ==> changes[i].contains(Change::Leave(id)))
}

/// From the message on that a client has gone nothing is written to it: no write, of that message
/// or of a later one, goes to a client with its id, until a client with its id joins. The
/// departure is the message at `gone`, and the client leaves the roster by the change at `at`.
pub proof fn law_nothing_is_written_to_a_leaver<W>(
    initial: Seq<Client<W>>,
    deliveries: Seq<Delivery<W>>,
    changes: Seq<Seq<Change<W>>>,
    id: i32,
    gone: int,
    at: int,
)
    requires
        rosters_follow(initial, deliveries, changes),
        forall|i: int| 0 <= i < deliveries.len() ==> (#[trigger] deliveries[i]).clients.len()
            <= usize::MAX,
        0 <= gone < deliveries.len(),
        deliveries[gone].message.leaver() == Some(id),
        0 <= at < changes[gone].len(),
        changes[gone][at] == Change::<W>::Leave(id),
        !joins(changes[gone].skip(at + 1), id),
        forall|i: int| gone < i < changes.len() ==> !joins(#[trigger] changes[i], id),
    ensures
        ({
            let run = broadcaster_run(BroadcasterView::Receiving, delivered(deliveries));
            &&& broadcaster_expects_all(BroadcasterView::Receiving, delivered(deliveries))
            &&& writes(run.1) == all_due(deliveries.take(gone)) + all_due(deliveries.skip(gone))
        }),
        forall|i: int, k: int|
            gone <= i < deliveries.len() && 0 <= k < deliveries[i].due().len() ==> (
            #[trigger] deliveries[i].due()[k]).0 < deliveries[i].clients.len()
                && deliveries[i].clients[deliveries[i].due()[k].0 as int].id != id,
{
    lemma_deliveries(deliveries);
    lemma_due_in_two(deliveries.take(gone), deliveries.skip(gone));
    assert(deliveries.take(gone) + deliveries.skip(gone) == deliveries);
    assert forall|i: int, k: int|
        gone <= i < deliveries.len() && 0 <= k < deliveries[i].due().len() implies (
    #[trigger] deliveries[i].due()[k]).0 < deliveries[i].clients.len()
        && deliveries[i].clients[deliveries[i].due()[k].0 as int].id != id by {
        let delivery = deliveries[i];
        let places = told_places(delivery.clients, delivery.message.untold());
        law_everyone_else_is_told_once(delivery.clients, delivery.message.untold());
        assert(delivery.due()[k].0 == places[k]);
        lemma_leaver_is_absent(initial, deliveries, changes, id, gone, at, i);
    }
}

proof fn lemma_leaver_is_absent<W>(
    initial: Seq<Client<W>>,
    deliveries: Seq<Delivery<W>>,
    changes: Seq<Seq<Change<W>>>,
    id: i32,
    gone: int,
    at: int,
    i: int,
)
    requires
        rosters_follow(initial, deliveries, changes),
        0 <= gone <= i < deliveries.len(),
        0 <= at < changes[gone].len(),
        changes[gone][at] == Change::<W>::Leave(id),
        !joins(changes[gone].skip(at + 1), id),
        forall|j: int| gone < j < changes.len() ==> !joins(#[trigger] changes[j], id),
    ensures
        is_absent(deliveries[i].clients, id),
    decreases i,
{
    let before = if i == 0 {
        initial
    } else {
        deliveries[i - 1].clients
    };
    assert(deliveries[i].clients == changed(before, changes[i]));
    if i == gone {
        lemma_absent_after_leave(before, id, changes[i], at);
    } else {
        lemma_leaver_is_absent(initial, deliveries, changes, id, gone, at, i - 1);
        lemma_absent_stays_absent(before, id, changes[i]);
    }
}

proof fn lemma_due_in_two<W>(first: Seq<Delivery<W>>, second: Seq<Delivery<W>>)
    ensures
        all_due(first + second) == all_due(first) + all_due(second),
    decreases second.len(),
{
    if second.len() == 0 {
        assert(first + second == first);
    } else {
        lemma_due_in_two(first, second.drop_last());
        assert((first + second).drop_last() == first + second.drop_last());
        assert((first + second).last() == second.last());
    }
}

/// A departure takes the client out of the roster before anyone is told: the message is answered
/// by its removal and by nothing else, only the removal or its failure can follow, and only behind
/// the removal the roster is opened, for all that are left.
pub proof fn law_departure_removes_first(
    id: i32,
    timestamp: Seq<char>,
    live: usize,
    event: BroadcasterEventView,
)
    ensures
        ({
            let text = "Server: Client:"@ + signed_decimal(id as int) + " left the chat\n"@;
            let heard = BroadcasterView::Receiving.answer(
                BroadcasterEventView::Message(MessageView::ClientLeft { id, timestamp }),
            );
            let removed = heard.next.answer(BroadcasterEventView::Removed { live });
            &&& heard.action == BroadcasterActionView::Remove { id }
            &&& heard.log == Some("Client disconnected: Client:"@ + signed_decimal(id as int))
            &&& heard.next.expects(event) ==> event is Removed || event is RosterPoisoned
            &&& heard.next.expects(BroadcasterEventView::Removed { live })
            &&& removed.action == (BroadcasterActionView::Open { untold: None })
            &&& removed.log == Some("Total number of clients live: "@ + decimal(live as nat))
            &&& removed.next == (BroadcasterView::Opening { text })
        }),
{
    law_announcements_spelled_out(id, Seq::empty(), timestamp);
    law_log_entries_spelled_out(id, Seq::empty(), timestamp);
}

/// Whoever has come, or speaks, is left out when the roster is opened, and nobody is taken out of
/// it. The others are told who has come, or what was said and when.
pub proof fn law_news_and_talk_leave_out_their_client(
    id: i32,
    text: Seq<char>,
    timestamp: Seq<char>,
)
    ensures
        ({
            let number = signed_decimal(id as int);
            let come = BroadcasterView::Receiving.answer(
                BroadcasterEventView::Message(MessageView::ClientJoined { id, timestamp }),
            );
            let said = BroadcasterView::Receiving.answer(
                BroadcasterEventView::Message(
                    MessageView::Broadcast { from_id: id, text, timestamp },
                ),
            );
            let news = "Server: Client:"@ + number + " joined the chat\n"@;
            let talk = "["@ + timestamp + "] Client:"@ + number + ": "@ + text + "\n"@;
            &&& come.action == (BroadcasterActionView::Open { untold: Some(id) })
            &&& come.log == Some("Client joined: Client:"@ + number + " "@)
            &&& come.next == (BroadcasterView::Opening { text: news })
            &&& said.action == (BroadcasterActionView::Open { untold: Some(id) })
            &&& said.log == Some("Received from Client:"@ + number + ": "@ + text)
            &&& said.next == (BroadcasterView::Opening { text: talk })
        }),
{
    law_announcements_spelled_out(id, text, timestamp);
    law_log_entries_spelled_out(id, text, timestamp);
}

/// Once the roster is open the text goes to the places in their order, one write at a time, and
/// with none left the next message is awaited. Nothing is logged meanwhile.
pub proof fn law_writes_go_through_the_places(
    places: Seq<usize>,
    begun: usize,
    text: Seq<char>,
)
    requires
        places.len() <= usize::MAX,
    ensures
        ({
            let opened = BroadcasterView::Opening { text }.answer(
                BroadcasterEventView::Opened { places },
            );
            let writing = BroadcasterView::Writing { places, begun, text };
            let written = writing.answer(BroadcasterEventView::Written);
            &&& opened.log == None::<Seq<char>>
            &&& places.len() > 0 ==> opened.action == (BroadcasterActionView::Write {
                place: places[0],
                text,
            }) && opened.next == (BroadcasterView::Writing { places, begun: 1, text })
            &&& places.len() == 0 ==> opened.action == BroadcasterActionView::Receive && opened.next
                == BroadcasterView::Receiving
            &&& written.log == None::<Seq<char>>
            &&& begun < places.len() ==> written.action == (BroadcasterActionView::Write {
                place: places[begun as int],
                text,
            }) && (written.next matches BroadcasterView::Writing {
                places: same,
                begun: more,
                text: still,
            } && same == places && more == begun + 1 && still == text)
            &&& begun >= places.len() ==> written.action == BroadcasterActionView::Receive
                && written.next == BroadcasterView::Receiving
        }),
{
}

/// The end of the broadcaster: without an error and with a last entry in the log when no reader is
/// left, and with the reason, in its words, when a lock or a write fails. Nothing comes behind it.
pub proof fn law_how_the_broadcaster_ends(
    broadcaster: BroadcasterView,
    reason: Seq<char>,
    event: BroadcasterEventView,
)
    ensures
        ({
            let closed = broadcaster.answer(BroadcasterEventView::Closed);
            let roster = broadcaster.answer(BroadcasterEventView::RosterPoisoned(reason));
            let writer = broadcaster.answer(BroadcasterEventView::WriterPoisoned(reason));
            let write = broadcaster.answer(BroadcasterEventView::WriteFailed(reason));
            &&& closed.action == BroadcasterActionView::Finish
            &&& closed.log == Some(
                "Broadcaster exiting: all client read thread senders dropped. Shutting down broadcasting"@,
            )
            &&& roster.action == BroadcasterActionView::Fail("clients lock poisoned: "@ + reason)
            &&& writer.action == BroadcasterActionView::Fail("writer lock poisoned: "@ + reason)
            &&& write.action == BroadcasterActionView::Fail(reason)
            &&& roster.log is None && writer.log is None && write.log is None
            &&& closed.next == BroadcasterView::Ended && roster.next == BroadcasterView::Ended
            &&& writer.next == BroadcasterView::Ended && write.next == BroadcasterView::Ended
            &&& !BroadcasterView::Ended.expects(event)
        }),
{
}

/// What can come of each action of the broadcaster, and nothing else.
pub proof fn law_what_the_broadcaster_expects(
    event: BroadcasterEventView,
    places: Seq<usize>,
    begun: usize,
    text: Seq<char>,
)
    ensures
        ({
            let receiving = BroadcasterView::Receiving;
            let removing = BroadcasterView::Removing { text };
            let opening = BroadcasterView::Opening { text };
            let writing = BroadcasterView::Writing { places, begun, text };
            match event {
                BroadcasterEventView::Message(_) | BroadcasterEventView::Closed => {
                    &&& receiving.expects(event)
                    &&& !removing.expects(event) && !opening.expects(event)
                    &&& !writing.expects(event)
                },
                BroadcasterEventView::Removed { .. } => {
                    &&& removing.expects(event)
                    &&& !receiving.expects(event) && !opening.expects(event)
                    &&& !writing.expects(event)
                },
                BroadcasterEventView::Opened { .. } => {
                    &&& opening.expects(event)
                    &&& !receiving.expects(event) && !removing.expects(event)
                    &&& !writing.expects(event)
                },
                BroadcasterEventView::RosterPoisoned(_) => {
                    &&& removing.expects(event) && opening.expects(event)
                    &&& !receiving.expects(event) && !writing.expects(event)
                },
                _ => {
                    &&& writing.expects(event)
                    &&& !receiving.expects(event) && !removing.expects(event)
                    &&& !opening.expects(event)
                },
            }
        }),
{
}

/// Who is written to, by their ids, and what. What a client says, and the news that it has come,
/// is written to a place exactly where the id there is another; the news that a client has gone is
/// written to every place of the roster as it is found. The places come in order, each once, and
/// every one is written the same: the time, the name and the text, or the name and the news.
pub proof fn law_everyone_with_another_id_is_written_to<W>(
    message: MessageView,
    live: usize,
    clients: Seq<Client<W>>,
)
    requires
        clients.len() <= usize::MAX,
    ensures
        ({
            let count = told_places(clients, message.untold()).len();
            let events = written_on(taken(message, live, clients), count);
            let written = writes(broadcaster_run(BroadcasterView::Receiving, events).1);
            let text = match message {
                MessageView::Broadcast { from_id, text, timestamp } => "["@ + timestamp
                    + "] Client:"@ + signed_decimal(from_id as int) + ": "@ + text + "\n"@,
                MessageView::ClientJoined { id, timestamp } => "Server: Client:"@ + signed_decimal(
                    id as int,
                ) + " joined the chat\n"@,
                MessageView::ClientLeft { id, timestamp } => "Server: Client:"@ + signed_decimal(
                    id as int,
                ) + " left the chat\n"@,
            };
            &&& forall|i: usize|
                #![trigger clients[i as int]]
                i < clients.len() ==> (written.contains((i, text)) <==> match message {
                    MessageView::Broadcast { from_id, .. } => clients[i as int].id != from_id,
                    MessageView::ClientJoined { id, .. } => clients[i as int].id != id,
                    MessageView::ClientLeft { .. } => true,
                })
            &&& forall|k: int|
                0 <= k < written.len() ==> (#[trigger] written[k]).0 < clients.len()
                    && written[k].1 == text
            &&& forall|j: int, k: int|
                0 <= j < k < written.len() ==> (#[trigger] written[j]).0 < (
                #[trigger] written[k]).0
        }),
{
    match message {
        MessageView::Broadcast { from_id, text, timestamp } => {
            law_announcements_spelled_out(from_id, text, timestamp);
        },
        MessageView::ClientJoined { id, timestamp } => {
            law_announcements_spelled_out(id, Seq::empty(), timestamp);
        },
        MessageView::ClientLeft { id, timestamp } => {
            law_announcements_spelled_out(id, Seq::empty(), timestamp);
        },
    }
    let left_out = message.untold();
    let places = told_places(clients, left_out);
    let text = match message {
        MessageView::Broadcast { from_id, text, timestamp } => "["@ + timestamp + "] Client:"@
            + signed_decimal(from_id as int) + ": "@ + text + "\n"@,
        MessageView::ClientJoined { id, timestamp } => "Server: Client:"@ + signed_decimal(
            id as int,
        ) + " joined the chat\n"@,
        MessageView::ClientLeft { id, timestamp } => "Server: Client:"@ + signed_decimal(id as int)
            + " left the chat\n"@,
    };
    assert(text == message.announcement());
    lemma_writes_so_far(message, live, clients, places.len());
    law_everyone_else_is_told_once(clients, left_out);
    let events = written_on(taken(message, live, clients), places.len());
    let written = writes(broadcaster_run(BroadcasterView::Receiving, events).1);
    assert forall|i: usize|
        #![trigger clients[i as int]]
        i < clients.len() implies (written.contains((i, text)) <==> match message {
        MessageView::Broadcast { from_id, .. } => clients[i as int].id != from_id,
        MessageView::ClientJoined { id, .. } => clients[i as int].id != id,
        MessageView::ClientLeft { .. } => true,
    }) by {
        if written.contains((i, text)) {
            let k = choose|k: int| 0 <= k < written.len() && written[k] == (i, text);
            assert(places[k] == i);
            assert(is_told(clients[places[k] as int], left_out));
        }
        if left_out != Some(clients[i as int].id) {
            assert(is_told(clients[i as int], left_out));
            assert(places.contains(i));
            let k = choose|k: int| 0 <= k < places.len() && places[k] == i;
            assert(written[k] == (i, text));
        }
    }
    assert forall|k: int| 0 <= k < written.len() implies (#[trigger] written[k]).0 < clients.len()
        && written[k].1 == text by {
        assert(written[k] == (places[k], text));
    }
    assert forall|j: int, k: int| 0 <= j < k < written.len() implies (#[trigger] written[j]).0 < (
    #[trigger] written[k]).0 by {
        assert(written[j] == (places[j], text));
        assert(written[k] == (places[k], text));
    }
}

/// The contents of actions, events and answers are their parts.
pub proof fn law_broadcaster_contents(
    message: ServerMessage,
    id: i32,
    untold: Option<i32>,
    place: usize,
    places: Vec<usize>,
    begun: usize,
    live: usize,
    text: String,
)
    ensures
        BroadcasterAction::Receive@ == BroadcasterActionView::Receive,
        (BroadcasterAction::Remove { id })@ == (BroadcasterActionView::Remove { id }),
        (BroadcasterAction::Open { untold })@ == (BroadcasterActionView::Open { untold }),
        (BroadcasterAction::Write { place, text })@ == (BroadcasterActionView::Write {
            place,
            text: text@,
        }),
        BroadcasterAction::Finish@ == BroadcasterActionView::Finish,
        BroadcasterAction::Fail(text)@ == BroadcasterActionView::Fail(text@),
        BroadcasterEvent::Message(message)@ == BroadcasterEventView::Message(message@),
        BroadcasterEvent::Closed@ == BroadcasterEventView::Closed,
        (BroadcasterEvent::Removed { live })@ == (BroadcasterEventView::Removed { live }),
        (BroadcasterEvent::Opened { places })@ == (BroadcasterEventView::Opened {
            places: places@,
        }),
        BroadcasterEvent::Written@ == BroadcasterEventView::Written,
        BroadcasterEvent::RosterPoisoned(text)@ == BroadcasterEventView::RosterPoisoned(text@),
        BroadcasterEvent::WriterPoisoned(text)@ == BroadcasterEventView::WriterPoisoned(text@),
        BroadcasterEvent::WriteFailed(text)@ == BroadcasterEventView::WriteFailed(text@),
        Broadcaster::Receiving@ == BroadcasterView::Receiving,
        (Broadcaster::Removing { text })@ == (BroadcasterView::Removing { text: text@ }),
        (Broadcaster::Opening { text })@ == (BroadcasterView::Opening { text: text@ }),
        (Broadcaster::Writing { places, begun, text })@ == (BroadcasterView::Writing {
            places: places@,
            begun,
            text: text@,
        }),
        Broadcaster::Ended@ == BroadcasterView::Ended,
{
}

/// The contents of an answer are its three parts, and an entry of the log is there exactly where
/// one is given.
pub proof fn law_broadcaster_step_contents(step: BroadcasterStep)
    ensures
        step@.next == step.next@,
        step@.action == step.action@,
        step.log is None ==> step@.log is None,
        step.log matches Some(entry) ==> step@.log == Some(entry@),
{
}

} // verus!
