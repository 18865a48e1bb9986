use chrono::{Local, NaiveDateTime};
use tcp_chat::clock::{log_line, stamped_line, timestamp};

fn is_now(text: &str) -> bool {
    let shown = NaiveDateTime::parse_from_str(text, "%Y-%m-%d %H:%M:%S").unwrap();
    let seconds = Local::now().naive_local().signed_duration_since(shown).num_seconds();
    (0..10).contains(&seconds)
}

#[test]
fn timestamp_is_the_local_time() {
    let text = timestamp();
    assert_eq!(text.len(), 19);
    assert!(is_now(&text));
    let marks: Vec<char> = text.chars().filter(|c| !c.is_ascii_digit()).collect();
    assert_eq!(marks, vec!['-', '-', ' ', ':', ':']);
}

#[test]
fn log_line_has_the_time_before_the_message() {
    let line = log_line("Server started on port 5000");
    assert_eq!(&line[0..1], "[");
    assert!(is_now(&line[1..20]));
    assert_eq!(&line[20..], "] Server started on port 5000");
}

#[test]
fn stamped_line_is_time_and_message() {
    assert_eq!(stamped_line("2024-02-29 08:05:00", "hi"), "[2024-02-29 08:05:00] hi");
    assert_eq!(stamped_line("", ""), "[] ");
}
