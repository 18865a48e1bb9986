//! Decimal numerals: writing integers and reading 32-bit ones.

use crate::text::chars_of;
use vstd::prelude::*;

verus! {

/// The numeral of one decimal digit.
pub open spec fn digit(d: int) -> char {
    if d == 0 {
        '0'
    } else if d == 1 {
        '1'
    } else if d == 2 {
        '2'
    } else if d == 3 {
        '3'
    } else if d == 4 {
        '4'
    } else if d == 5 {
        '5'
    } else if d == 6 {
        '6'
    } else if d == 7 {
        '7'
    } else if d == 8 {
        '8'
    } else {
        '9'
    }
}

/// Whether `c` is a decimal digit.
pub open spec fn is_digit(c: char) -> bool {
    '0' <= c <= '9'
}

/// The value of the digit `c`.
pub open spec fn digit_value(c: char) -> int {
    c as int - '0' as int
}

/// The decimal numeral of `n`, without leading zeros.
pub open spec fn decimal(n: nat) -> Seq<char>
    decreases n,
{
    if n < 10 {
        seq![digit(n as int)]
    } else {
        decimal(n / 10).push(digit((n % 10) as int))
    }
}

/// The decimal numeral of an integer: a minus sign stands before a negative one.
pub open spec fn signed_decimal(n: int) -> Seq<char> {
    if n < 0 {
        seq!['-'] + decimal((-n) as nat)
    } else {
        decimal(n as nat)
    }
}

/// The value of a sequence of digits.
pub open spec fn digits_value(s: Seq<char>) -> int
    decreases s.len(),
{
    if s.len() == 0 {
        0
    } else {
        digits_value(s.drop_last()) * 10 + digit_value(s.last())
    }
}

/// The digits with which `s` starts.
pub open spec fn leading_digits(s: Seq<char>) -> Seq<char>
    decreases s.len(),
{
    if s.len() == 0 || !is_digit(s.first()) {
        Seq::empty()
    } else {
        seq![s.first()] + leading_digits(s.drop_first())
    }
}

/// Why a text is no 32-bit integer.
#[derive(Debug, Clone, Copy, PartialEq, Eq, Structural)]
pub enum NumberError {
    /// There is no text.
    Empty,
    /// A digit was expected and something else, or nothing, was found.
    InvalidDigit,
    /// The number is above the greatest 32-bit integer.
    TooLarge,
    /// The number is below the least 32-bit integer.
    TooSmall,
}

impl NumberError {
    /// The error in words.
    pub open spec fn words(self) -> Seq<char> {
        match self {
            NumberError::Empty => "cannot parse integer from empty string"@,
            NumberError::InvalidDigit => "invalid digit found in string"@,
            NumberError::TooLarge => "number too large to fit in target type"@,
            NumberError::TooSmall => "number too small to fit in target type"@,
        }
    }

    /// The error in words.
    pub fn message(&self) -> (text: &'static str)
        ensures
            text@ == self.words(),
    {
        match self {
            NumberError::Empty => "cannot parse integer from empty string",
            NumberError::InvalidDigit => "invalid digit found in string",
            NumberError::TooLarge => "number too large to fit in target type",
            NumberError::TooSmall => "number too small to fit in target type",
        }
    }
}

/// Whether `s` starts with a sign.
pub open spec fn has_sign(s: Seq<char>) -> bool {
    s.len() > 0 && (s.first() == '-' || s.first() == '+')
}

/// What `s` says as a 32-bit integer: an optional sign, followed by digits and nothing else.
/// The number that the leading digits make decides before whatever follows them.
pub open spec fn read_i32(s: Seq<char>) -> Result<i32, NumberError> {
    let body = if has_sign(s) {
        s.drop_first()
    } else {
        s
    };
    let digits = leading_digits(body);
    let value = if s.len() > 0 && s.first() == '-' {
        -digits_value(digits)
    } else {
        digits_value(digits)
    };
    if s.len() == 0 {
        Err(NumberError::Empty)
    } else if value > i32::MAX {
        Err(NumberError::TooLarge)
    } else if value < i32::MIN {
        Err(NumberError::TooSmall)
    } else if body.len() == 0 || digits.len() < body.len() {
        Err(NumberError::InvalidDigit)
    } else {
        Ok(value as i32)
    }
}

fn digit_text(d: u64) -> (text: &'static str)
    requires
        d < 10,
    ensures
        text@ == seq![digit(d as int)],
{
    proof {
        reveal_strlit("0");
        reveal_strlit("1");
        reveal_strlit("2");
        reveal_strlit("3");
        reveal_strlit("4");
        reveal_strlit("5");
        reveal_strlit("6");
        reveal_strlit("7");
        reveal_strlit("8");
        reveal_strlit("9");
    }
    if d == 0 {
        "0"
    } else if d == 1 {
        "1"
    } else if d == 2 {
        "2"
    } else if d == 3 {
        "3"
    } else if d == 4 {
        "4"
    } else if d == 5 {
        "5"
    } else if d == 6 {
        "6"
    } else if d == 7 {
        "7"
    } else if d == 8 {
        "8"
    } else {
        "9"
    }
}

/// Writes `n` in decimal.
pub fn decimal_text(n: u64) -> (text: String)
    ensures
        text@ == decimal(n as nat),
    decreases n,
{
    if n < 10 {
        digit_text(n).to_owned()
    } else {
        let mut text = decimal_text(n / 10);
        text.append(digit_text(n % 10));
        text
    }
}

/// Writes `n` in decimal, with a minus sign where it is negative.
pub fn signed_decimal_text(n: i32) -> (text: String)
    ensures
        text@ == signed_decimal(n as int),
{
    if n < 0 {
        let mut text = "-".to_owned();
        proof {
            reveal_strlit("-");
        }
        let magnitude = decimal_text((-(n as i64)) as u64);
        text.append(magnitude.as_str());
        text
    } else {
        decimal_text(n as u64)
    }
}

/// Reads a 32-bit integer.
pub fn parse_i32(s: &str) -> (number: Result<i32, NumberError>)
    ensures
        number == read_i32(s@),
{
    let chars = chars_of(s);
    let len: usize = chars.len();
    if len == 0 {
        return Err(NumberError::Empty);
    }
    let negative: bool = chars[0] == '-';
    let start: usize = if negative || chars[0] == '+' {
        1
    } else {
        0
    };
    let ghost body = s@.skip(start as int);
    proof {
        assert(s@.skip(0) == s@);
        assert(s@.skip(1) == s@.drop_first());
        assert(body.skip(0) == body);
    }
    let ghost mut seen: Seq<char> = Seq::empty();
    let mut value: i64 = 0;
    let mut i: usize = start;
    while i < len && '0' <= chars[i] && chars[i] <= '9'
        invariant
            chars@ == s@,
            len == chars.len(),
            start <= i <= len,
            len > 0,
            start == 0 || start == 1,
            start == 1 <==> has_sign(s@),
            negative == (s@.first() == '-'),
            body == s@.skip(start as int),
            body == (if has_sign(s@) {
                s@.drop_first()
            } else {
                s@
            }),
            seen.len() == i - start,
            leading_digits(body) == seen + leading_digits(body.skip(i - start)),
            value == digits_value(seen),
            0 <= value <= 2147483648,
            !negative ==> value <= i32::MAX,
        decreases len - i,
    {
        let c: char = chars[i];
        let d: i64 = (c as u32 - 48) as i64;
        let next: i64 = value * 10 + d;
        proof {
            let rest = body.skip(i - start);
            assert(rest.first() == c);
            assert(rest.drop_first() == body.skip(i - start + 1));
            assert(leading_digits(body) == seen.push(c) + leading_digits(rest.drop_first()));
            assert(seen.push(c).drop_last() == seen);
            assert(next == digits_value(seen.push(c)));
            if next > 2147483647 {
                lemma_leading_digits(rest.drop_first());
                lemma_value_grows(seen.push(c), leading_digits(rest.drop_first()));
            }
        }
        if !negative && next > 2147483647 {
            return Err(NumberError::TooLarge);
        }
        if negative && next > 2147483648 {
            return Err(NumberError::TooSmall);
        }
        proof {
            seen = seen.push(c);
        }
        value = next;
        i = i + 1;
    }
    assert(leading_digits(body.skip(i - start)) == Seq::<char>::empty());
    assert(leading_digits(body) == seen);
    if i == start || i < len {
        return Err(NumberError::InvalidDigit);
    }
    if negative {
        Ok((-value) as i32)
    } else {
        Ok(value as i32)
    }
}

/// More digits behind a numeral do not make its value smaller.
proof fn lemma_value_grows(head: Seq<char>, tail: Seq<char>)
    requires
        digits_value(head) >= 0,
        forall|i: int| 0 <= i < tail.len() ==> is_digit(tail[i]),
    ensures
        digits_value(head + tail) >= digits_value(head),
    decreases tail.len(),
{
    if tail.len() > 0 {
        lemma_value_grows(head, tail.drop_last());
        assert((head + tail).drop_last() == head + tail.drop_last());
    } else {
        assert(head + tail == head);
    }
}

/// Leading digits are digits, and are all of a text that holds nothing else.
proof fn lemma_leading_digits(s: Seq<char>)
    ensures
        forall|i: int| 0 <= i < leading_digits(s).len() ==> is_digit(#[trigger] leading_digits(s)[i]),
        (forall|i: int| 0 <= i < s.len() ==> is_digit(#[trigger] s[i])) ==> leading_digits(s) == s,
    decreases s.len(),
{
    if s.len() > 0 && is_digit(s.first()) {
        let rest = s.drop_first();
        lemma_leading_digits(rest);
        assert forall|i: int| 0 <= i < leading_digits(s).len() implies is_digit(
            #[trigger] leading_digits(s)[i],
        ) by {
            if i > 0 {
                assert(leading_digits(s)[i] == leading_digits(rest)[i - 1]);
            }
        }
        if forall|i: int| 0 <= i < s.len() ==> is_digit(#[trigger] s[i]) {
            assert forall|i: int| 0 <= i < rest.len() implies is_digit(#[trigger] rest[i]) by {
                assert(rest[i] == s[i + 1]);
            }
            assert(seq![s.first()] + rest == s);
        }
    } else if s.len() == 0 {
        assert(leading_digits(s) == s);
    } else {
        assert(!is_digit(s[0]));
    }
}

/// A decimal numeral is made of digits, at least one of them.
pub proof fn lemma_decimal_digits(n: nat)
    ensures
        decimal(n).len() > 0,
        forall|i: int| 0 <= i < decimal(n).len() ==> is_digit(#[trigger] decimal(n)[i]),
    decreases n,
{
    if n >= 10 {
        lemma_decimal_digits(n / 10);
    }
}

/// The value of a decimal numeral is the number that it was written for.
proof fn lemma_decimal_value(n: nat)
    ensures
        digits_value(decimal(n)) == n,
    decreases n,
{
    if n < 10 {
        assert(decimal(n).drop_last() == Seq::<char>::empty());
        assert(digits_value(decimal(n).drop_last()) == 0);
    } else {
        lemma_decimal_value(n / 10);
        assert(decimal(n).drop_last() == decimal(n / 10));
    }
}

/// Reading gives back what was written: the numeral of a 32-bit integer reads as that integer.
pub proof fn law_read_gives_back_written(n: i32)
    ensures
        read_i32(signed_decimal(n as int)) == Ok::<i32, NumberError>(n),
{
    let magnitude: nat = if n < 0 {
        (-n) as nat
    } else {
        n as nat
    };
    let digits = decimal(magnitude);
    lemma_decimal_digits(magnitude);
    lemma_decimal_value(magnitude);
    lemma_leading_digits(digits);
    assert(is_digit(digits[0]));
    let s = signed_decimal(n as int);
    if n < 0 {
        assert(s.drop_first() == digits);
    }
}

/// A numeral is built digit by digit: below ten it is the one character for the number, and from
/// ten on it is the numeral of the tens, with the character for the ones behind it.
pub proof fn law_numeral_by_digits(n: nat)
    ensures
        n < 10 ==> decimal(n).len() == 1 && decimal(n)[0] as int == 48 + n,
        n >= 10 ==> {
            &&& decimal(n).len() == decimal(n / 10).len() + 1
            &&& decimal(n).drop_last() == decimal(n / 10)
            &&& decimal(n).last() as int == 48 + n % 10
        },
{
    if n >= 10 {
        assert(decimal(n).drop_last() == decimal(n / 10));
    }
}

/// The numeral of a negative number is a minus sign and the numeral of its magnitude; that of any
/// other has no sign.
pub proof fn law_numeral_sign(n: int)
    ensures
        n >= 0 ==> signed_decimal(n) == decimal(n as nat),
        n < 0 ==> {
            &&& signed_decimal(n).len() > 0
            &&& signed_decimal(n).first() == '-'
            &&& signed_decimal(n).drop_first() == decimal((-n) as nat)
        },
{
    if n < 0 {
        assert(signed_decimal(n).drop_first() == decimal((-n) as nat));
    }
}

/// Different numbers have different numerals.
pub proof fn law_numerals_differ(m: int, n: int)
    requires
        m != n,
    ensures
        signed_decimal(m) != signed_decimal(n),
{
    let a: nat = if m < 0 {
        (-m) as nat
    } else {
        m as nat
    };
    let b: nat = if n < 0 {
        (-n) as nat
    } else {
        n as nat
    };
    law_numeral_sign(m);
    law_numeral_sign(n);
    lemma_decimal_value(a);
    lemma_decimal_value(b);
    lemma_decimal_digits(a);
    lemma_decimal_digits(b);
    assert(is_digit(decimal(a)[0]) && is_digit(decimal(b)[0]));
}

/// What a text says as a number, by the values that its digits make one after the other:
/// `values[i]` is what the first `i` digits make. The text is an optional sign, the digits that
/// follow, and a rest that starts with no digit. A number out of range is refused as such,
/// whatever the rest is; a text without digits, or with a rest, is no number.
pub proof fn law_number_is_read_by_its_digits(
    sign: Option<char>,
    digits: Seq<char>,
    rest: Seq<char>,
    values: Seq<int>,
)
    requires
        sign matches Some(c) ==> c == '-' || c == '+',
        forall|i: int| 0 <= i < digits.len() ==> 48 <= (#[trigger] digits[i]) as int <= 57,
        rest.len() > 0 ==> !(48 <= rest[0] as int <= 57),
        sign is None && digits.len() == 0 && rest.len() > 0 ==> rest[0] != '-' && rest[0] != '+',
        values.len() == digits.len() + 1,
        values[0] == 0,
        forall|i: int|
            0 <= i < digits.len() ==> values[i + 1] == 10 * values[i] + ((#[trigger] digits[i])
                as int - 48),
    ensures
        ({
            let body = digits + rest;
            let s = match sign {
                Some(c) => seq![c] + body,
                None => body,
            };
            let value = if sign == Some('-') {
                -values.last()
            } else {
                values.last()
            };
            read_i32(s) == if s.len() == 0 {
                Err::<i32, NumberError>(NumberError::Empty)
            } else if value > 2147483647 {
                Err(NumberError::TooLarge)
            } else if value < -2147483648 {
                Err(NumberError::TooSmall)
            } else if digits.len() == 0 || rest.len() > 0 {
                Err(NumberError::InvalidDigit)
            } else {
                Ok(value as i32)
            }
        }),
{
    let body = digits + rest;
    lemma_digits_before_rest(digits, rest);
    lemma_values(digits, values);
    if sign is Some {
        assert((seq![sign->0] + body).drop_first() == body);
    } else if digits.len() > 0 {
        assert(body[0] == digits[0]);
    } else if rest.len() > 0 {
        assert(body[0] == rest[0]);
    }
}

proof fn lemma_digits_before_rest(digits: Seq<char>, rest: Seq<char>)
    requires
        forall|i: int| 0 <= i < digits.len() ==> 48 <= (#[trigger] digits[i]) as int <= 57,
        rest.len() > 0 ==> !(48 <= rest[0] as int <= 57),
    ensures
        leading_digits(digits + rest) == digits,
    decreases digits.len(),
{
    let s = digits + rest;
    if digits.len() == 0 {
        assert(s == rest);
        assert(leading_digits(s) == digits);
    } else {
        let fewer = digits.drop_first();
        assert forall|i: int| 0 <= i < fewer.len() implies 48 <= (#[trigger] fewer[i]) as int
            <= 57 by {
            assert(fewer[i] == digits[i + 1]);
        }
        lemma_digits_before_rest(fewer, rest);
        assert(s.drop_first() == fewer + rest);
        assert(s.first() == digits[0]);
        assert(seq![digits[0]] + fewer == digits);
    }
}

proof fn lemma_values(digits: Seq<char>, values: Seq<int>)
    requires
        values.len() == digits.len() + 1,
        values[0] == 0,
        forall|i: int|
            0 <= i < digits.len() ==> values[i + 1] == 10 * values[i] + ((#[trigger] digits[i])
                as int - 48),
    ensures
        digits_value(digits) == values.last(),
    decreases digits.len(),
{
    if digits.len() > 0 {
        let fewer = digits.drop_last();
        let before = values.drop_last();
        assert forall|i: int| 0 <= i < fewer.len() implies before[i + 1] == 10 * before[i] + ((
        #[trigger] fewer[i]) as int - 48) by {
            assert(fewer[i] == digits[i]);
        }
        lemma_values(fewer, before);
        assert(digits[digits.len() - 1] == digits.last());
    }
}

/// Each reason for which a text is no number has words of its own.
pub proof fn law_number_errors_in_words()
    ensures
        NumberError::Empty.words() == "cannot parse integer from empty string"@,
        NumberError::InvalidDigit.words() == "invalid digit found in string"@,
        NumberError::TooLarge.words() == "number too large to fit in target type"@,
        NumberError::TooSmall.words() == "number too small to fit in target type"@,
{
}

} // verus!
