//! What holds from one end of the chat to the other.

use crate::client::{asks_to_quit, heard, ChatClientView, ClientActionView, HeardView};
use crate::client_reader::{ClientReader, ReaderActionView, ReaderEventView};
use crate::clock::{is_stamp, stamped, two_digits, CivilTime};
use crate::message::{client_name, MessageView};
use crate::number::{decimal, lemma_decimal_digits, signed_decimal};
use crate::text::{
    ascii_lowered, drop_leading, drop_trailing, is_blank, is_line_end, is_white_space,
    lemma_drop_leading, lemma_drop_trailing, line_text, trimmed,
};
use vstd::prelude::*;

verus! {

/// The first line of a stream of characters, with its line feed; the whole stream where it has
/// no line feed.
pub open spec fn first_line(stream: Seq<char>) -> Seq<char>
    decreases stream.len(),
{
    if stream.len() == 0 {
        Seq::empty()
    } else if stream.first() == '\n' {
        seq!['\n']
    } else {
        seq![stream.first()] + first_line(stream.drop_first())
    }
}

/// Whether `s` has no line feed.
pub open spec fn is_single(s: Seq<char>) -> bool {
    forall|i: int| 0 <= i < s.len() ==> #[trigger] s[i] != '\n'
}

/// Whether `s` is one line: a line feed ends it, and it has no other.
pub open spec fn is_one_line(s: Seq<char>) -> bool {
    s.len() > 0 && s.last() == '\n' && is_single(s.drop_last())
}

/// Whether the parts of a message are as the readers make them: a time, and a text from a line.
pub open spec fn is_as_read(message: MessageView) -> bool {
    match message {
        MessageView::Broadcast { from_id, text, timestamp } => is_single(text) && is_stamp(
            timestamp,
        ),
        MessageView::ClientJoined { id, timestamp } => is_stamp(timestamp),
        MessageView::ClientLeft { id, timestamp } => is_stamp(timestamp),
    }
}

proof fn lemma_first_line(line: Seq<char>, rest: Seq<char>)
    requires
        is_one_line(line),
    ensures
        first_line(line + rest) == line,
    decreases line.len(),
{
    let stream = line + rest;
    if line.len() == 1 {
        assert(stream.first() == line.last());
        assert(seq!['\n'] == line);
    } else {
        assert(line.drop_last()[0] == line[0]);
        let tail = line.drop_first();
        assert forall|i: int| 0 <= i < tail.drop_last().len() implies #[trigger] tail.drop_last()[i]
            != '\n' by {
            assert(tail.drop_last()[i] == line.drop_last()[i + 1]);
        }
        lemma_first_line(tail, rest);
        assert(stream.drop_first() == tail + rest);
        assert(seq![line[0]] + tail == line);
    }
}

/// A trimmed text has no line feed that the text had not, does not end in white space, and is
/// empty for a blank text alone.
proof fn lemma_trimmed(s: Seq<char>)
    ensures
        is_single(s) ==> is_single(trimmed(s)),
        trimmed(s).len() > 0 ==> !is_white_space(trimmed(s).last()),
        is_blank(s) == (trimmed(s).len() == 0),
{
    let drop = |c: char| is_white_space(c);
    let front = drop_leading(s, drop);
    lemma_drop_leading(s, drop);
    lemma_drop_trailing(front, drop);
    let t = trimmed(s);
    if front.len() > 0 {
        assert(front.first() == s[s.len() - front.len()]);
        if t.len() == 0 {
            assert(drop(front[0]));
        }
    } else {
        assert forall|i: int| 0 <= i < s.len() implies is_white_space(#[trigger] s[i]) by {
            assert(drop(s[i]));
        }
    }
    if is_single(s) {
        assert forall|i: int| 0 <= i < t.len() implies #[trigger] t[i] != '\n' by {
            assert(t[i] == front[i]);
            assert(front[i] == s[s.len() - front.len() + i]);
        }
    }
}

/// What stands between a client and its reader changes nothing: a line that is typed, with text
/// in it, comes out of the stream as it went in, and the text is passed on as it was typed, but
/// for the white space around it.
pub proof fn law_typed_line_is_passed_on(
    id: i32,
    typed: Seq<char>,
    rest: Seq<char>,
    bytes: usize,
    timestamp: Seq<char>,
)
    requires
        is_single(typed),
        !asks_to_quit(trimmed(typed)),
        !is_blank(typed),
        bytes > 0,
    ensures
        ({
            let sent = trimmed(typed) + "\n"@;
            let line = first_line(sent + rest);
            let next = ClientReader::Reading { id }.next(
                ReaderEventView::Line { bytes, line, timestamp },
            );
            &&& ChatClientView::typed(typed).action == ClientActionView::Send { line: sent }
            &&& line == sent
            &&& next.1 == ReaderActionView::Send(
                MessageView::Broadcast { from_id: id, text: trimmed(typed), timestamp },
            )
        }),
{
    lemma_sent_line(typed, rest);
    lemma_trimmed(typed);
    let text = trimmed(typed);
    let sent = text + "\n"@;
    assert(sent[text.len() - 1] == text.last());
    assert(!is_blank(sent));
}

/// A line that is typed with nothing but white space in it is sent, and the server passes it
/// over.
pub proof fn law_blank_line_is_passed_over(
    id: i32,
    typed: Seq<char>,
    rest: Seq<char>,
    bytes: usize,
    timestamp: Seq<char>,
)
    requires
        is_blank(typed),
        bytes > 0,
    ensures
        ({
            let sent = "\n"@;
            let line = first_line(sent + rest);
            &&& ChatClientView::typed(typed).action == ClientActionView::Send { line: sent }
            &&& line == sent
            &&& ClientReader::Reading { id }.next(ReaderEventView::Line { bytes, line, timestamp })
                == (ClientReader::Reading { id }, ReaderActionView::ReadLine)
        }),
{
    reveal_strlit("\n");
    reveal_strlit("/quit");
    reveal_strlit("quit");
    let none = Seq::<char>::empty();
    lemma_trimmed(typed);
    assert(trimmed(typed) == none);
    assert(trimmed(typed) + "\n"@ == "\n"@);
    lemma_first_line("\n"@, rest);
    assert(ascii_lowered(none).len() == 0);
    assert(!asks_to_quit(none));
}

proof fn lemma_line_text_of(text: Seq<char>)
    requires
        text.len() > 0 ==> !is_line_end(text.last()),
    ensures
        line_text(text + "\n"@) == text,
{
    reveal_strlit("\n");
    let line = text + "\n"@;
    let drop = |c: char| is_line_end(c);
    assert(line.last() == '\n');
    assert(line.drop_last() == text);
    assert(drop_trailing(text, drop) == text);
}

proof fn lemma_sent_line(typed: Seq<char>, rest: Seq<char>)
    requires
        is_single(typed),
    ensures
        first_line(trimmed(typed) + "\n"@ + rest) == trimmed(typed) + "\n"@,
        line_text(trimmed(typed) + "\n"@) == trimmed(typed),
{
    reveal_strlit("\n");
    let text = trimmed(typed);
    let sent = text + "\n"@;
    lemma_trimmed(typed);
    assert(sent.drop_last() == text);
    lemma_first_line(sent, rest);
    lemma_line_text_of(text);
}

/// Whatever the stream of a client holds, the text that is passed on from a line of it has no
/// line feed.
pub proof fn law_text_of_a_line_is_single(stream: Seq<char>)
    ensures
        is_single(line_text(first_line(stream))),
{
    let line = first_line(stream);
    lemma_line_feed_is_last(stream);
    let drop = |c: char| is_line_end(c);
    lemma_drop_trailing(line, drop);
    let text = line_text(line);
    assert forall|i: int| 0 <= i < text.len() implies #[trigger] text[i] != '\n' by {
        assert(text[i] == line[i]);
        if i == line.len() - 1 {
            assert(text.last() == text[i]);
        }
    }
}

proof fn lemma_line_feed_is_last(stream: Seq<char>)
    ensures
        forall|i: int| 0 <= i < first_line(stream).len() - 1 ==> #[trigger] first_line(stream)[i] != '\n',
    decreases stream.len(),
{
    if stream.len() > 0 && stream.first() != '\n' {
        let rest = stream.drop_first();
        lemma_line_feed_is_last(rest);
        let line = first_line(stream);
        assert forall|i: int| 0 <= i < line.len() - 1 implies #[trigger] line[i] != '\n' by {
            if i > 0 {
                assert(line[i] == first_line(rest)[i - 1]);
            }
        }
    }
}

proof fn lemma_decimal_is_single(n: int)
    ensures
        is_single(signed_decimal(n)),
{
    let magnitude: nat = if n < 0 {
        (-n) as nat
    } else {
        n as nat
    };
    lemma_decimal_digits(magnitude);
    let s = signed_decimal(n);
    assert forall|i: int| 0 <= i < s.len() implies #[trigger] s[i] != '\n' by {
        if n < 0 {
            if i > 0 {
                assert(s[i] == decimal(magnitude)[i - 1]);
            }
        }
    }
}

proof fn lemma_single_concat(a: Seq<char>, b: Seq<char>)
    requires
        is_single(a),
        is_single(b),
    ensures
        is_single(a + b),
{
    assert forall|i: int| 0 <= i < (a + b).len() implies #[trigger] (a + b)[i] != '\n' by {
        if i < a.len() {
            assert((a + b)[i] == a[i]);
        } else {
            assert((a + b)[i] == b[i - a.len()]);
        }
    }
}

proof fn lemma_stamp_is_single(time: CivilTime)
    requires
        time.shown_by_clock(),
    ensures
        is_single(time.stamp()),
{
    lemma_decimal_is_single(time.year);
    let year = if time.year <= 9999 {
        decimal(time.year as nat)
    } else {
        seq!['+'] + decimal(time.year as nat)
    };
    if time.year > 9999 {
        lemma_single_concat(seq!['+'], decimal(time.year as nat));
    }
    let s1 = year + seq!['-'];
    lemma_single_concat(year, seq!['-']);
    let s2 = s1 + two_digits(time.month);
    lemma_single_concat(s1, two_digits(time.month));
    let s3 = s2 + seq!['-'];
    lemma_single_concat(s2, seq!['-']);
    let s4 = s3 + two_digits(time.day);
    lemma_single_concat(s3, two_digits(time.day));
    let s5 = s4 + seq![' '];
    lemma_single_concat(s4, seq![' ']);
    let s6 = s5 + two_digits(time.hour);
    lemma_single_concat(s5, two_digits(time.hour));
    let s7 = s6 + seq![':'];
    lemma_single_concat(s6, seq![':']);
    let s8 = s7 + two_digits(time.minute);
    lemma_single_concat(s7, two_digits(time.minute));
    let s9 = s8 + seq![':'];
    lemma_single_concat(s8, seq![':']);
    lemma_single_concat(s9, two_digits(time.second));
}

/// What the clients are told of a message is one line, and each client reads it as one: it shows
/// the announcement whole, and nothing of what follows with it.
pub proof fn law_announcement_is_heard_as_one_line(
    message: MessageView,
    rest: Seq<char>,
    bytes: usize,
)
    requires
        is_as_read(message),
        bytes > 0,
    ensures
        is_one_line(message.announcement()),
        first_line(message.announcement() + rest) == message.announcement(),
        heard(bytes, first_line(message.announcement() + rest)) == HeardView::Show(
            message.announcement(),
        ),
{
    reveal_strlit("\n");
    reveal_strlit("[");
    reveal_strlit("] ");
    reveal_strlit(": ");
    reveal_strlit("Client:");
    reveal_strlit("Server: ");
    reveal_strlit(" joined the chat\n");
    reveal_strlit(" left the chat\n");
    let line = message.announcement();
    match message {
        MessageView::Broadcast { from_id, text, timestamp } => {
            lemma_name_is_single(from_id);
            let time = choose|time: CivilTime| #[trigger]
                time.shown_by_clock() && timestamp == time.stamp();
            lemma_stamp_is_single(time);
            let s1 = "["@ + timestamp;
            lemma_single_concat("["@, timestamp);
            let s2 = s1 + "] "@;
            lemma_single_concat(s1, "] "@);
            let said = client_name(from_id) + ": "@;
            lemma_single_concat(client_name(from_id), ": "@);
            lemma_single_concat(said, text);
            lemma_single_concat(s2, said + text);
            assert(line.drop_last() == s2 + (said + text));
        },
        MessageView::ClientJoined { id, timestamp } => {
            lemma_name_is_single(id);
            let end = " joined the chat\n"@.drop_last();
            lemma_single_concat("Server: "@, client_name(id));
            lemma_single_concat("Server: "@ + client_name(id), end);
            assert(line.drop_last() == "Server: "@ + client_name(id) + end);
        },
        MessageView::ClientLeft { id, timestamp } => {
            lemma_name_is_single(id);
            let end = " left the chat\n"@.drop_last();
            lemma_single_concat("Server: "@, client_name(id));
            lemma_single_concat("Server: "@ + client_name(id), end);
            assert(line.drop_last() == "Server: "@ + client_name(id) + end);
        },
    }
    lemma_first_line(line, rest);
}

proof fn lemma_name_is_single(id: i32)
    ensures
        is_single(client_name(id)),
{
    reveal_strlit("Client:");
    lemma_decimal_is_single(id as int);
    lemma_single_concat("Client:"@, signed_decimal(id as int));
}

/// What is typed at one client is shown at every other that is told of it: the time, the name of
/// the first and the text, as one line.
pub proof fn law_typed_line_is_shown_to_the_others(
    id: i32,
    typed: Seq<char>,
    rest: Seq<char>,
    bytes: usize,
    timestamp: Seq<char>,
    told_rest: Seq<char>,
    told_bytes: usize,
)
    requires
        is_single(typed),
        !asks_to_quit(trimmed(typed)),
        !is_blank(typed),
        is_stamp(timestamp),
        bytes > 0,
        told_bytes > 0,
    ensures
        ({
            let sent = ChatClientView::typed(typed).action->line;
            let line = first_line(sent + rest);
            let passed_on = ClientReader::Reading { id }.next(
                ReaderEventView::Line { bytes, line, timestamp },
            ).1;
            let told = passed_on->Send_0.announcement();
            &&& passed_on is Send
            &&& heard(told_bytes, first_line(told + told_rest)) == HeardView::Show(
                stamped(timestamp, client_name(id) + ": "@ + trimmed(typed) + "\n"@),
            )
        }),
{
    law_typed_line_is_passed_on(id, typed, rest, bytes, timestamp);
    lemma_trimmed(typed);
    let message = MessageView::Broadcast { from_id: id, text: trimmed(typed), timestamp };
    law_announcement_is_heard_as_one_line(message, told_rest, told_bytes);
}

} // verus!
