use tcp_chat::client::{hear, is_quit, ChatClient, ClientAction, ClientEvent, Heard, Notice};

fn words(action: &ClientAction) -> String {
    match action {
        ClientAction::Connect { address } => format!("connect {}", address),
        ClientAction::FindAddress => "find address".to_string(),
        ClientAction::CloneReader => "clone reader".to_string(),
        ClientAction::Listen => "listen".to_string(),
        ClientAction::ReadInput => "read input".to_string(),
        ClientAction::Send { line } => format!("send {}", line),
        ClientAction::ShutDown => "shut down".to_string(),
        ClientAction::Close => "close".to_string(),
        ClientAction::Finish => "finish".to_string(),
        ClientAction::Fail(reason) => format!("fail {}", reason),
    }
}

fn notice_words(notice: &Notice) -> String {
    match notice {
        Notice::Nothing => String::new(),
        Notice::Print(text) => format!("print {}", text),
        Notice::Error(complaint) => format!("error {}", complaint),
    }
}

fn go_on(client: ChatClient, event: ClientEvent) -> (ChatClient, String, String) {
    assert!(client.is_expected(&event));
    let step = client.step(event);
    let (notice, action) = (notice_words(&step.notice), words(&step.action));
    (step.next, notice, action)
}

fn reason() -> String {
    "no luck".to_string()
}

fn typed(line: &str) -> ClientEvent {
    ClientEvent::Typed { line: line.to_string() }
}

#[test]
fn connects_and_introduces_itself() {
    let step = ChatClient::start(Some("10.0.0.9:6000".to_string()));
    assert_eq!(words(&step.action), "connect 10.0.0.9:6000");
    assert_eq!(notice_words(&step.notice), "");
    let (c, notice, action) = go_on(step.next, ClientEvent::Connected);
    assert_eq!(notice, "print Connected to server: 10.0.0.9:6000");
    assert_eq!(action, "find address");
    let addr = "10.0.0.1:50123".to_string();
    let (c, notice, action) = go_on(c, ClientEvent::Addressed { addr });
    assert_eq!(
        notice,
        "print Client address 10.0.0.1:50123\nPort number of this client is cliend_id \"50123\""
    );
    assert_eq!(action, "clone reader");
    let (c, notice, action) = go_on(c, ClientEvent::Cloned);
    assert_eq!((notice.as_str(), action.as_str()), ("", "listen"));
    assert!(c.is_expected(&ClientEvent::InputEnded));
}

#[test]
fn default_server_is_on_this_machine() {
    let step = ChatClient::start(None);
    assert_eq!(words(&step.action), "connect 127.0.0.1:5000");
    let (end, notice, action) = go_on(step.next, ClientEvent::ConnectFailed(reason()));
    assert_eq!(notice, "");
    assert_eq!(action, "fail failed to connect to 127.0.0.1:5000: no luck");
    assert!(!end.is_expected(&ClientEvent::Connected));
}

#[test]
fn failures_before_the_chat_are_the_end() {
    let (_, _, action) = go_on(ChatClient::Addressing, ClientEvent::AddressFailed(reason()));
    assert_eq!(action, "fail no luck");
    let (_, _, action) = go_on(ChatClient::Cloning, ClientEvent::CloneFailed(reason()));
    assert_eq!(action, "fail failed to clone stream: no luck");
}

#[test]
fn sends_what_is_typed() {
    let (c, notice, action) = go_on(ChatClient::Typing, typed("  hello there \t"));
    assert_eq!((notice.as_str(), action.as_str()), ("", "send hello there\n"));
    let timestamp = "2024-02-29 08:05:00".to_string();
    let (c, notice, action) = go_on(c, ClientEvent::Sent { timestamp });
    assert_eq!(notice, "print [2024-02-29 08:05:00] You sent: hello there");
    assert_eq!(action, "read input");
    let (c, notice, action) = go_on(c, typed("   "));
    assert_eq!((notice.as_str(), action.as_str()), ("", "send \n"));
    let (_, notice, _) = go_on(c, ClientEvent::Sent { timestamp: "t".to_string() });
    assert_eq!(notice, "print [t] You sent: ");
}

#[test]
fn failed_send_closes() {
    let (c, _, _) = go_on(ChatClient::Typing, typed("hello"));
    let (c, notice, action) = go_on(c, ClientEvent::SendFailed(reason()));
    assert_eq!(notice, "error failed to send message: no luck");
    assert_eq!(action, "close");
    assert!(c.is_expected(&ClientEvent::ReaderFinished));
}

#[test]
fn quits_when_asked_to() {
    for line in ["quit", "/quit", "QUIT", "/Quit", "  quit  ", "\t/QUIT\r"] {
        let (c, notice, action) = go_on(ChatClient::Typing, typed(line));
        assert_eq!(notice, "print Quitting and closing client connection...");
        assert_eq!(action, "shut down");
        let (_, notice, action) = go_on(c, ClientEvent::ShutDown);
        assert_eq!((notice.as_str(), action.as_str()), ("", "close"));
    }
    for line in ["quit now", "//quit", "/ quit", "quitt", "qui", ""] {
        let (_, _, action) = go_on(ChatClient::Typing, typed(line));
        assert_eq!(action, format!("send {}\n", line));
    }
    assert!(is_quit("qUIT"));
    assert!(!is_quit(" quit"));
    let (_, _, action) = go_on(ChatClient::Quitting, ClientEvent::ShutDownFailed(reason()));
    assert_eq!(action, "fail no luck");
}

#[test]
fn end_of_input_closes() {
    let (c, notice, action) = go_on(ChatClient::Typing, ClientEvent::InputEnded);
    assert_eq!((notice.as_str(), action.as_str()), ("", "close"));
    let (_, notice, action) = go_on(c, ClientEvent::ReaderFinished);
    assert_eq!((notice.as_str(), action.as_str()), ("", "finish"));
    let (_, _, action) = go_on(ChatClient::Typing, ClientEvent::InputFailed(reason()));
    assert_eq!(action, "fail no luck");
}

#[test]
fn reader_is_complained_of() {
    let (_, notice, action) = go_on(ChatClient::Closing, ClientEvent::ReaderFailed(reason()));
    assert_eq!(notice, "error reader thread error: no luck");
    assert_eq!(action, "finish");
    let (end, notice, action) = go_on(ChatClient::Closing, ClientEvent::ReaderPanicked);
    assert_eq!(notice, "error reader thread panicked");
    assert_eq!(action, "finish");
    assert!(!end.is_expected(&ClientEvent::ReaderPanicked));
}

#[test]
fn hears_the_server() {
    let Heard::Show(line) = hear(3, "hi\n".to_string()) else {
        panic!("nothing to show");
    };
    assert_eq!(line, "hi\n");
    let Heard::Stop(words) = hear(0, String::new()) else {
        panic!("no end");
    };
    assert_eq!(words, "Server closed connection. Please exit.");
}

#[test]
fn sent_now_takes_the_time() {
    let ClientEvent::Sent { timestamp } = ClientEvent::sent_now() else {
        panic!("not sent");
    };
    assert_eq!(timestamp.len(), 19);
}
