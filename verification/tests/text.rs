use tcp_chat::text::{
    blank, chars_of, equal_ignoring_case, take_after_last_colon, take_line_text, trim, white_space,
};

#[test]
fn trims_white_space() {
    assert_eq!(trim("  a b \t\r\n"), "a b");
    assert_eq!(trim(""), "");
    assert_eq!(trim(" \t\u{3000} "), "");
    assert_eq!(trim("\u{a0}caf\u{e9}\u{2003}"), "caf\u{e9}");
    assert_eq!(trim("\u{200b}x\u{200b}"), "\u{200b}x\u{200b}");
}

#[test]
fn trims_as_the_standard_library_does() {
    let parts = ["", " ", "\t", "\n", "\r", "\u{85}", "\u{2028}", "x", "\u{1f600}", "\u{feff}"];
    for a in parts {
        for b in parts {
            for c in parts {
                let s = format!("{}{}{}{}{}", a, b, c, b, a);
                assert_eq!(trim(&s), s.trim());
            }
        }
    }
}

#[test]
fn knows_the_white_space_of_unicode() {
    let mut count = 0;
    for code in 0..=0x10ffffu32 {
        if let Some(c) = char::from_u32(code) {
            assert_eq!(white_space(c), c.is_whitespace());
            if white_space(c) {
                count += 1;
            }
        }
    }
    assert_eq!(count, 25);
}

#[test]
fn takes_line_ends_off() {
    assert_eq!(take_line_text("hello\n"), "hello");
    assert_eq!(take_line_text("hello\r\n"), "hello");
    assert_eq!(take_line_text("hello"), "hello");
    assert_eq!(take_line_text("hello\n\r\n\r"), "hello");
    assert_eq!(take_line_text(" he\rllo \n"), " he\rllo ");
    assert_eq!(take_line_text("\r\n"), "");
    assert_eq!(take_line_text(""), "");
    assert_eq!(take_line_text("   \n"), "   ");
    for s in ["\n\n", "a\r", "\ra\r", "\u{e9}\n", "a\n \n"] {
        assert_eq!(take_line_text(s), s.trim_end_matches(&['\n', '\r'][..]));
    }
}

#[test]
fn ignores_ascii_case_alone() {
    let words = ["quit", "QUIT", "qUiT", "/quit", "/QUIT", "quit ", "", "\u{e9}", "\u{c9}", "[", "{", "@", "`"];
    for a in words {
        for b in words {
            assert_eq!(equal_ignoring_case(a, b), a.eq_ignore_ascii_case(b));
        }
    }
    assert!(equal_ignoring_case("AbZ", "aBz"));
    assert!(!equal_ignoring_case("[", "{"));
}

#[test]
fn takes_what_follows_the_last_colon() {
    assert_eq!(take_after_last_colon("127.0.0.1:5000"), "5000");
    assert_eq!(take_after_last_colon("[::1]:80"), "80");
    assert_eq!(take_after_last_colon("nothing"), "nothing");
    assert_eq!(take_after_last_colon("a:"), "");
    assert_eq!(take_after_last_colon(""), "");
    for s in ["a:b:c", ":", "::", "x:\u{e9}"] {
        assert_eq!(Some(take_after_last_colon(s)), s.split(':').last());
    }
}

#[test]
fn lists_characters() {
    assert_eq!(chars_of("a\u{1f600}b"), vec!['a', '\u{1f600}', 'b']);
    assert!(chars_of("").is_empty());
}

#[test]
fn blank_texts_have_only_white_space() {
    for s in ["", " ", " \t\r\n", "\u{3000}\u{a0}"] {
        assert!(blank(s));
    }
    for s in ["a", " a ", "\u{200b}", "\n.\n"] {
        assert!(!blank(s));
    }
}
