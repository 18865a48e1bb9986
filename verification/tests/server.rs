use tcp_chat::number::NumberError;
use tcp_chat::server::{
    client_id, thread_complaint, Acceptor, AcceptorAction, AcceptorEvent, Outcome, Report, Role,
};

fn words(action: &AcceptorAction) -> String {
    match action {
        AcceptorAction::Bind { address } => format!("bind {}", address),
        AcceptorAction::Accept => "accept".to_string(),
        AcceptorAction::CloneWriter => "clone writer".to_string(),
        AcceptorAction::Add { id, addr } => format!("add {} {}", id, addr),
        AcceptorAction::CloneReader => "clone reader".to_string(),
        AcceptorAction::Spawn { id } => format!("spawn {}", id),
        AcceptorAction::Close => "close".to_string(),
        AcceptorAction::Finish => "finish".to_string(),
        AcceptorAction::Fail(reason) => format!("fail {}", reason),
    }
}

fn report_words(report: &Report) -> String {
    match report {
        Report::Nothing => String::new(),
        Report::Log(entry) => format!("log {}", entry),
        Report::Error(complaint) => format!("error {}", complaint),
    }
}

fn go_on(acceptor: Acceptor, event: AcceptorEvent) -> (Acceptor, String, String) {
    assert!(acceptor.is_expected(&event));
    let step = acceptor.step(event);
    let (report, action) = (report_words(&step.report), words(&step.action));
    (step.next, report, action)
}

fn reason() -> String {
    "no luck".to_string()
}

fn calls(addr: &str) -> AcceptorEvent {
    AcceptorEvent::Connected { addr: addr.to_string() }
}

#[test]
fn id_is_the_port() {
    assert_eq!(client_id("127.0.0.1:50123"), Ok(50123));
    assert_eq!(client_id("[::1]:65535"), Ok(65535));
    assert_eq!(client_id("[fe80::1%3]:0"), Ok(0));
    assert_eq!(client_id("7"), Ok(7));
    assert_eq!(client_id("host:"), Err(NumberError::Empty));
    assert_eq!(client_id("host:http"), Err(NumberError::InvalidDigit));
    assert_eq!(client_id("host:4294967296"), Err(NumberError::TooLarge));
    assert_eq!(client_id("host:-4294967296"), Err(NumberError::TooSmall));
}

#[test]
fn starts_on_the_port_that_is_asked_for() {
    let step = Acceptor::start(Some("7777".to_string()));
    assert_eq!(words(&step.action), "bind 0.0.0.0:7777");
    assert_eq!(report_words(&step.report), "");
    let (_, report, action) = go_on(step.next, AcceptorEvent::Bound);
    assert_eq!(report, "log Server started on port 7777");
    assert_eq!(action, "accept");
}

#[test]
fn default_port_is_5000() {
    let step = Acceptor::start(None);
    assert_eq!(words(&step.action), "bind 0.0.0.0:5000");
    let (end, report, action) = go_on(step.next, AcceptorEvent::BindFailed(reason()));
    assert_eq!(report, "");
    assert_eq!(action, "fail failed to bind on port 5000: no luck");
    assert!(!end.is_expected(&AcceptorEvent::Bound));
}

#[test]
fn client_is_added_before_it_is_read() {
    let (a, report, action) = go_on(Acceptor::Listening, calls("127.0.0.1:50123"));
    assert_eq!(report, "log Client connected: 127.0.0.1:50123 (id: 50123)");
    assert_eq!(action, "clone writer");
    let (a, report, action) = go_on(a, AcceptorEvent::Cloned);
    assert_eq!(report, "");
    assert_eq!(action, "add 50123 127.0.0.1:50123");
    let (a, report, action) = go_on(a, AcceptorEvent::Added { live: 12 });
    assert_eq!(report, "log Total number of clients connected live: 12");
    assert_eq!(action, "clone reader");
    let (a, report, action) = go_on(a, AcceptorEvent::Cloned);
    assert_eq!(report, "");
    assert_eq!(action, "spawn 50123");
    let (_, _, action) = go_on(a, calls("127.0.0.1:50124"));
    assert_eq!(action, "clone writer");
}

#[test]
fn failed_accept_is_complained_of() {
    let (a, report, action) = go_on(Acceptor::Listening, AcceptorEvent::AcceptFailed(reason()));
    assert_eq!(report, "error failed to accept client: no luck");
    assert_eq!(action, "accept");
    assert!(a.is_expected(&calls("h:1")));
}

#[test]
fn every_other_failure_is_the_end() {
    let (_, _, action) = go_on(Acceptor::Listening, AcceptorEvent::AddressFailed(reason()));
    assert_eq!(action, "fail failed to get peer addr: no luck");
    let (_, _, action) = go_on(Acceptor::Listening, calls("h:x"));
    assert_eq!(action, "fail failed to parse port number as i32: invalid digit found in string");
    let (a, _, _) = go_on(Acceptor::Listening, calls("h:1"));
    let (_, _, action) = go_on(a, AcceptorEvent::CloneFailed(reason()));
    assert_eq!(action, "fail failed to clone stream for storing writer: no luck");
    let adding = Acceptor::Adding { id: 1 };
    let (_, _, action) = go_on(adding, AcceptorEvent::RosterPoisoned(reason()));
    assert_eq!(action, "fail clients lock poisoned: no luck");
    let cloning = Acceptor::CloningReader { id: 1 };
    let (end, report, action) = go_on(cloning, AcceptorEvent::CloneFailed(reason()));
    assert_eq!(action, "fail failed to clone stream for reader thread creation: no luck");
    assert_eq!(report, "");
    assert!(!end.is_expected(&AcceptorEvent::Cloned));
    assert!(!end.is_expected(&AcceptorEvent::Closed));
}

#[test]
fn shuts_down_when_no_more_clients_come() {
    let (a, report, action) = go_on(Acceptor::Listening, AcceptorEvent::NoMore);
    assert_eq!((report.as_str(), action.as_str()), ("", "close"));
    assert!(!a.is_expected(&calls("h:1")));
    let (_, report, action) = go_on(a, AcceptorEvent::Closed);
    assert_eq!(report, "log Server shutdown completed.");
    assert_eq!(action, "finish");
}

#[test]
fn threads_are_complained_of() {
    assert_eq!(thread_complaint(Role::Client, &Outcome::Finished), None);
    assert_eq!(thread_complaint(Role::Broadcaster, &Outcome::Finished), None);
    assert_eq!(
        thread_complaint(Role::Client, &Outcome::Failed(reason())),
        Some("client thread returned error: no luck".to_string())
    );
    assert_eq!(
        thread_complaint(Role::Client, &Outcome::Panicked("Any { .. }".to_string())),
        Some("client thread panicked: Any { .. }".to_string())
    );
    assert_eq!(
        thread_complaint(Role::Broadcaster, &Outcome::Failed(reason())),
        Some("broadcaster thread returned error: no luck".to_string())
    );
    assert_eq!(
        thread_complaint(Role::Broadcaster, &Outcome::Panicked("Any { .. }".to_string())),
        Some("broadcaster thread panicked: Any { .. }".to_string())
    );
}
