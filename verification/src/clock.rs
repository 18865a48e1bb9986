//! Local time as text, and lines that carry it.

use crate::number::{decimal, digit};
use vstd::prelude::*;

verus! {

/// A moment on a calendar and a clock.
pub struct CivilTime {
    pub year: int,
    pub month: int,
    pub day: int,
    pub hour: int,
    pub minute: int,
    pub second: int,
}

/// Whether February has 29 days.
pub open spec fn is_leap_year(year: int) -> bool {
    year % 4 == 0 && (year % 100 != 0 || year % 400 == 0)
}

/// The number of days of a month.
pub open spec fn days_in_month(year: int, month: int) -> int {
    if month == 2 {
        if is_leap_year(year) {
            29
        } else {
            28
        }
    } else if month == 4 || month == 6 || month == 9 || month == 11 {
        30
    } else {
        31
    }
}

/// Two digits for a number below one hundred.
pub open spec fn two_digits(n: int) -> Seq<char> {
    seq![digit(n / 10), digit(n % 10)]
}

impl CivilTime {
    /// Whether a clock that counts from 1970 in universal time can show this, in some time zone.
    pub open spec fn shown_by_clock(self) -> bool {
        &&& 1969 <= self.year <= 262143
        &&& 1 <= self.month <= 12
        &&& 1 <= self.day <= days_in_month(self.year, self.month)
        &&& 0 <= self.hour < 24
        &&& 0 <= self.minute < 60
        &&& 0 <= self.second < 60
    }

    /// Date and time of day, as in `2024-02-29 08:05:00`. A year of more than four digits has a
    /// plus sign.
    pub open spec fn stamp(self) -> Seq<char> {
        let year = if self.year <= 9999 {
            decimal(self.year as nat)
        } else {
            seq!['+'] + decimal(self.year as nat)
        };
        year + seq!['-'] + two_digits(self.month) + seq!['-'] + two_digits(self.day) + seq![' ']
            + two_digits(self.hour) + seq![':'] + two_digits(self.minute) + seq![':'] + two_digits(
            self.second,
        )
    }
}

/// Whether `text` is the stamp of a time that a clock can show.
pub open spec fn is_stamp(text: Seq<char>) -> bool {
    exists|time: CivilTime| #[trigger] time.shown_by_clock() && text == time.stamp()
}

/// The pattern of a stamp: year, month, day, hour, minute and second.
pub open spec fn stamp_pattern() -> Seq<char> {
    "%Y-%m-%d %H:%M:%S"@
}

/// `chrono::Local::now`, written out by `chrono::DateTime::format`. What the clock shows is not
/// known here. Under the pattern of a stamp the text is the stamp of some time: the year with
/// four digits, or with a sign and more, and every other field with two. The seconds stay below
/// 60, as the clock is read without leap seconds. The call panics where the
/// machine gives no local time: where the system clock stands before 1970 or beyond the last year
/// that `chrono` can hold, and where the data of the time zone have no usable entry or an offset
/// of 24 hours or more.
#[verifier::external_body]
fn local_time_text(pattern: &str) -> (text: String)
    requires
        pattern@ == stamp_pattern(),
    ensures
        is_stamp(text@),
{
    chrono::Local::now().format(pattern).to_string()
}

/// The local time, as a stamp.
pub fn timestamp() -> (text: String)
    ensures
        is_stamp(text@),
{
    local_time_text("%Y-%m-%d %H:%M:%S")
}

fn call<F: Fn() -> String>(read: F) -> (text: String)
    requires
        call_requires(read, ()),
    ensures
        call_ensures(read, (), text),
{
    read()
}

/// The local time, as [`timestamp`] gave it just now. A text that did not come out of a call of
/// [`timestamp`] is not known to satisfy the first clause, whatever it says.
pub fn time_just_read() -> (text: String)
    ensures
        call_ensures(timestamp, (), text),
        is_stamp(text@),
{
    call(timestamp)
}

/// `message` behind a time in brackets.
pub open spec fn stamped(time: Seq<char>, message: Seq<char>) -> Seq<char> {
    "["@ + time + "] "@ + message
}

/// Puts `message` behind a time in brackets.
pub fn stamped_line(time: &str, message: &str) -> (line: String)
    ensures
        line@ == stamped(time@, message@),
{
    let mut line = "[".to_owned();
    line.append(time);
    line.append("] ");
    line.append(message);
    line
}

/// The line that a log shows for `message`: the message behind the local time.
pub fn log_line(message: &str) -> (line: String)
    ensures
        exists|time: String|
            call_ensures(timestamp, (), time) && is_stamp(time@) && line@ == #[trigger] stamped(
                time@,
                message@,
            ),
{
    let time = time_just_read();
    let line = stamped_line(time.as_str(), message);
    assert(call_ensures(timestamp, (), time) && is_stamp(time@) && line@ == stamped(
        time@,
        message@,
    ));
    line
}

/// Up to the year 9999 every stamp has 19 characters.
pub proof fn law_stamps_have_one_width(time: CivilTime)
    requires
        time.shown_by_clock(),
        time.year <= 9999,
    ensures
        time.stamp().len() == 19,
{
    reveal_with_fuel(decimal, 5);
    assert(decimal(time.year as nat).len() == 4);
}

/// The fields of a stamp stand at fixed places, counted from its end, and say month, day, hour,
/// minute and second with two digits each. Before them stands the year.
pub proof fn law_stamp_shows_the_time(time: CivilTime)
    requires
        time.shown_by_clock(),
    ensures
        ({
            let s = time.stamp();
            let n = s.len() as int;
            let at = |i: int| s[n - 15 + i] as int;
            &&& n >= 19
            &&& at(0) == '-' as int && at(3) == '-' as int && at(6) == ' ' as int
            &&& at(9) == ':' as int && at(12) == ':' as int
            &&& (at(1) - 48) * 10 + (at(2) - 48) == time.month
            &&& (at(4) - 48) * 10 + (at(5) - 48) == time.day
            &&& (at(7) - 48) * 10 + (at(8) - 48) == time.hour
            &&& (at(10) - 48) * 10 + (at(11) - 48) == time.minute
            &&& (at(13) - 48) * 10 + (at(14) - 48) == time.second
            &&& time.year <= 9999 ==> s.take(n - 15) == decimal(time.year as nat)
            &&& time.year > 9999 ==> s.take(n - 15) == seq!['+'] + decimal(time.year as nat)
        }),
{
    reveal_with_fuel(decimal, 5);
    let year = if time.year <= 9999 {
        decimal(time.year as nat)
    } else {
        seq!['+'] + decimal(time.year as nat)
    };
    assert(decimal(time.year as nat).len() >= 4);
    let s = time.stamp();
    assert(s.take(s.len() - 15) == year);
}

/// A clock shows times that exist: no month, day, hour, minute or second is out of its range.
pub proof fn law_clock_shows_times_that_exist(time: CivilTime)
    requires
        time.shown_by_clock(),
    ensures
        1969 <= time.year,
        1 <= time.month <= 12,
        1 <= time.day <= 31,
        time.month == 4 || time.month == 6 || time.month == 9 || time.month == 11 ==> time.day
            <= 30,
        time.month == 2 ==> time.day <= 29,
        time.month == 2 && time.day == 29 ==> time.year % 4 == 0 && (time.year % 100 != 0
            || time.year % 400 == 0),
        0 <= time.hour <= 23,
        0 <= time.minute <= 59,
        0 <= time.second <= 59,
{
}

/// A stamped message is an opening bracket, the time, a closing bracket, a blank and the message.
pub proof fn law_stamped_message(time: Seq<char>, message: Seq<char>)
    ensures
        stamped(time, message) == seq!['['] + time + seq![']', ' '] + message,
{
    reveal_strlit("[");
    reveal_strlit("] ");
    assert("["@ == seq!['[']);
    assert("] "@ == seq![']', ' ']);
}

/// A stamp, whatever the time, is a year and then month, day, hour, minute and second at their
/// places, each with two digits and in its range.
pub proof fn law_stamp_has_its_fields(text: Seq<char>)
    requires
        is_stamp(text),
    ensures
        ({
            let n = text.len() as int;
            let at = |i: int| text[n - 15 + i] as int;
            let field = |i: int| (at(i) - 48) * 10 + (at(i + 1) - 48);
            &&& n >= 19
            &&& at(0) == '-' as int && at(3) == '-' as int && at(6) == ' ' as int
            &&& at(9) == ':' as int && at(12) == ':' as int
            &&& 1 <= field(1) <= 12 && 1 <= field(4) <= 31
            &&& 0 <= field(7) <= 23 && 0 <= field(10) <= 59 && 0 <= field(13) <= 59
        }),
{
    let time = choose|time: CivilTime| #[trigger] time.shown_by_clock() && text == time.stamp();
    law_stamp_shows_the_time(time);
    law_clock_shows_times_that_exist(time);
}

} // verus!
