use tcp_chat::number::{decimal_text, parse_i32, signed_decimal_text, NumberError};

#[test]
fn writes_decimal_numerals() {
    assert_eq!(decimal_text(0), "0");
    assert_eq!(decimal_text(9), "9");
    assert_eq!(decimal_text(10), "10");
    assert_eq!(decimal_text(1234567890), "1234567890");
    assert_eq!(decimal_text(u64::MAX), "18446744073709551615");
    assert_eq!(signed_decimal_text(-1), "-1");
    assert_eq!(signed_decimal_text(i32::MIN), "-2147483648");
    assert_eq!(signed_decimal_text(i32::MAX), "2147483647");
}

#[test]
fn reads_what_was_written() {
    let mut n = i32::MIN;
    loop {
        assert_eq!(signed_decimal_text(n), n.to_string());
        assert_eq!(parse_i32(&signed_decimal_text(n)), Ok(n));
        match n.checked_add(7_654_321) {
            Some(next) => n = next,
            None => break,
        }
    }
    for n in [i32::MIN, -1, 0, 1, 5000, 65535, i32::MAX] {
        assert_eq!(parse_i32(&signed_decimal_text(n)), Ok(n));
    }
}

#[test]
fn refuses_what_is_no_number() {
    assert_eq!(parse_i32(""), Err(NumberError::Empty));
    assert_eq!(parse_i32("x"), Err(NumberError::InvalidDigit));
    assert_eq!(parse_i32("-"), Err(NumberError::InvalidDigit));
    assert_eq!(parse_i32("2147483648"), Err(NumberError::TooLarge));
    assert_eq!(parse_i32("-2147483649"), Err(NumberError::TooSmall));
    assert_eq!(parse_i32("-2147483648"), Ok(i32::MIN));
    assert_eq!(parse_i32("+12"), Ok(12));
    assert_eq!(parse_i32("-0"), Ok(0));
    assert_eq!(parse_i32("007"), Ok(7));
}

#[test]
fn reads_numbers_as_the_standard_library_does() {
    let texts = [
        "", "+", "-", "++1", "--1", "+-1", "1+", " 1", "1 ", "0", "00", "+0", "-00", "5000", "65535",
        "12a", "a12", "1_000", "99999999999", "99999999999x", "-99999999999x", "2147483647",
        "2147483648", "2147483647x", "2147483648x", "-2147483648", "-2147483649", "-2147483648x",
        "-2147483649x", "00000000000000000000001", "\u{661}", "1\u{661}", "0x10", "+2147483648",
        "+", "\u{e9}", "1:", ":1",
    ];
    for text in texts {
        match (parse_i32(text), text.parse::<i32>()) {
            (Ok(a), Ok(b)) => assert_eq!(a, b),
            (Err(a), Err(b)) => assert_eq!(a.message(), b.to_string()),
            _ => panic!("{}", text),
        }
    }
}
