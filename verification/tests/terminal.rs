use cmonitor::channel::{Book, Channel, Line};
use cmonitor::frames::{
    close_frame, error_frame, event_type, input_frame, notice, open_frame, resize_frame, rpc, terminal_named,
};
use cmonitor::json::{read_text_at, write_document, Document, Member};
use cmonitor::registry::Registry;
use cmonitor::store::Db;
use cmonitor::terminal::{
    addressed_terminal, admitted, agent_found, authed_hash, default_cols, default_rows, from_agent, step, to_agent, valid_size,
    Action, ClientMessage, Event, Forwarded, Stage, MAX_AGENT_FRAME, MAX_INPUT,
};
use tokio::sync::mpsc::{channel, Receiver, Sender};

fn input(data: &str) -> ClientMessage {
    ClientMessage::Input { data: data.to_owned() }
}

fn pipe(size: usize) -> (Sender<String>, Receiver<String>) {
    channel(size)
}

#[test]
fn browser_terminal_messages_are_bounded_and_bound_to_the_server_id() {
    assert!(to_agent("server-id", &input("echo ok\r"))
        .is_some_and(|frame| frame.contains(r#""terminal_id":"server-id""#)));
    assert!(to_agent("server-id", &ClientMessage::Resize { cols: 120, rows: 32 }).is_some());
    assert!(to_agent("server-id", &ClientMessage::Resize { cols: 0, rows: 32 }).is_none());
    let connect = ClientMessage::Connect { node_id: 1, cols: default_cols(), rows: default_rows() };
    assert!(to_agent("server-id", &connect).is_none());
}

#[test]
fn frames_are_compact_json() {
    assert_eq!(
        open_frame("t", 80, 24),
        r#"{"jsonrpc":"2.0","method":"terminal.open","params":{"cols":80,"rows":24,"terminal_id":"t"}}"#
    );
    assert_eq!(
        resize_frame("t", 500, 200),
        r#"{"jsonrpc":"2.0","method":"terminal.resize","params":{"cols":500,"rows":200,"terminal_id":"t"}}"#
    );
    assert_eq!(
        close_frame("t"),
        r#"{"jsonrpc":"2.0","method":"terminal.close","params":{"terminal_id":"t"}}"#
    );
    assert_eq!(
        input_frame("t", "a\"\\\n\r\t\u{8}\u{c}\u{1b}\u{7f}é"),
        "{\"jsonrpc\":\"2.0\",\"method\":\"terminal.input\",\"params\":{\"data\":\"a\\\"\\\\\\n\\r\\t\\b\\f\\u001b\u{7f}é\",\"terminal_id\":\"t\"}}"
    );
    assert_eq!(
        error_frame("t", "m"),
        r#"{"jsonrpc":"2.0","method":"terminal.error","params":{"message":"m","terminal_id":"t"}}"#
    );
    assert_eq!(notice("m"), r#"{"message":"m","type":"error"}"#);
}

#[test]
fn frames_are_read_back() {
    assert_eq!(event_type(&close_frame("t")).as_deref(), Some("terminal.close"));
    assert_eq!(terminal_named(&input_frame("a\"b", "x")).as_deref(), Some("a\"b"));
    assert_eq!(event_type(r#"{"method":"terminal.exit"}"#).as_deref(), Some("terminal.exit"));
    assert_eq!(event_type(r#"{"method":7}"#), None);
    assert_eq!(event_type(r#"["method"]"#), None);
    assert_eq!(event_type("terminal.exit"), None);
    assert_eq!(event_type(r#"{"params":{}}"#), None);
    assert_eq!(terminal_named(r#"{"terminal_id":"t"}"#), None);
    assert_eq!(terminal_named(r#"{"params":["terminal_id"]}"#), None);
    assert_eq!(terminal_named(r#"{"params":{"terminal_id":"t"}}"#).as_deref(), Some("t"));
}

fn member(name: &str, value: Document) -> Member {
    Member { name: name.to_owned(), value }
}

#[test]
fn members_are_found_under_their_names() {
    let params = Document::Object(vec![
        member("b$", Document::Text(String::new())),
        member("b", Document::Natural(7)),
        member("a", Document::Text("\u{1}é\"".to_owned())),
    ]);
    let frame = rpc("m", params);
    assert_eq!(
        frame,
        "{\"jsonrpc\":\"2.0\",\"method\":\"m\",\"params\":{\"a\":\"\\u0001é\\\"\",\"b\":7,\"b$\":\"\"}}"
    );
    let at = |path: &[&'static str]| read_text_at(&frame, &path.to_vec());
    assert_eq!(at(&["jsonrpc"]).as_deref(), Some("2.0"));
    assert_eq!(at(&["method"]).as_deref(), Some("m"));
    assert_eq!(at(&["params", "a"]).as_deref(), Some("\u{1}é\""));
    assert_eq!(at(&["params", "b$"]).as_deref(), Some(""));
    assert_eq!(at(&["params", "b"]), None);
    assert_eq!(at(&["params", "c"]), None);
    assert_eq!(at(&["params"]), None);
    assert_eq!(at(&["a"]), None);
    assert_eq!(at(&["method", "a"]), None);
    assert_eq!(at(&[]), None);
    assert_eq!(read_text_at("\"x\"", &vec![]).as_deref(), Some("x"));
    assert_eq!(read_text_at("x", &vec![]), None);
}

#[test]
fn any_document_can_be_a_parameter() {
    for (params, text) in [
        (Document::Null, "null"),
        (Document::Bool(true), "true"),
        (Document::Bool(false), "false"),
        (Document::Natural(u64::MAX), "18446744073709551615"),
        (Document::Integer(i64::MIN), "-9223372036854775808"),
        (Document::Integer(0), "0"),
        (Document::Integer(30), "30"),
        (Document::Text("x/y".to_owned()), "\"x/y\""),
        (Document::List(vec![]), "[]"),
        (Document::Object(vec![]), "{}"),
        (
            Document::List(vec![
                Document::Object(vec![
                    member("é", Document::Null),
                    member("z", Document::List(vec![Document::Natural(1), Document::Bool(true)])),
                    member("", Document::Integer(-1)),
                    member("Z", Document::Object(vec![member("k", Document::Natural(2))])),
                ]),
                Document::Text(String::new()),
            ]),
            r#"[{"":-1,"Z":{"k":2},"z":[1,true],"é":null},""]"#,
        ),
    ] {
        assert_eq!(write_document(&params), text);
        let frame = rpc("a\"b", params);
        assert_eq!(frame, format!(r#"{{"jsonrpc":"2.0","method":"a\"b","params":{text}}}"#));
        assert_eq!(event_type(&frame).as_deref(), Some("a\"b"));
    }
}

#[test]
fn the_deepest_documents_are_read_again() {
    let mut params = Document::Natural(1);
    for _ in 0..126 {
        params = Document::List(vec![params]);
    }
    let frame = rpc("m", params);
    assert_eq!(event_type(&frame).as_deref(), Some("m"));
    assert_eq!(event_type(&frame.replace('1', "[1]")), None);
    let mut params = Document::Natural(1);
    for _ in 0..126 {
        params = Document::Object(vec![member("a", params)]);
    }
    assert_eq!(event_type(&rpc("m", params)).as_deref(), Some("m"));
}

#[test]
fn names_with_a_dollar_sign_are_written_too() {
    let params = Document::Object(vec![member("$a", Document::Natural(1))]);
    assert_eq!(rpc("m", params), r#"{"jsonrpc":"2.0","method":"m","params":{"$a":1}}"#);
}

#[test]
fn channels_say_whether_a_message_was_taken() {
    let (tx, mut rx) = pipe(1);
    let mut line = Line::new(tx);
    assert!(line.hand("one".to_owned()));
    assert!(!line.hand("two".to_owned()));
    assert_eq!(rx.try_recv().as_deref(), Ok("one"));
    assert!(rx.try_recv().is_err());
    drop(rx);
    assert!(!line.hand("three".to_owned()));
    let (tx, mut rx) = pipe(1);
    let mut book = Book::new();
    let channel = Channel::new(tx, &book);
    assert!(channel.hand(&mut book, "one".to_owned()));
    assert!(!channel.hand(&mut book, "two".to_owned()));
    assert_eq!(rx.try_recv().as_deref(), Ok("one"));
}

#[test]
fn a_strange_node_is_not_heard() {
    let mut registry = Registry::default();
    let (tx, mut rx) = pipe(1);
    registry.insert("t".to_owned(), 7, tx);
    assert!(!registry.route("t", 8, "x"));
    assert!(!registry.route("t", 7, "m1"));
    assert!(!registry.route("t", 8, "x"));
    assert!(registry.route("t", 7, "m2"));
    assert!(!registry.route("t", 7, "m3"));
    assert_eq!(rx.try_recv().as_deref(), Ok("m1"));
    assert!(rx.try_recv().is_err());
    assert!(!registry.is_open_on("t", 7));
}

#[test]
fn control_frames_fit_for_the_longest_names() {
    let id = "\u{1}".repeat(128);
    let locating = Stage::Locating { node_id: 3, cols: 500, rows: 200 };
    let (stage, action) = step(locating, Event::Agent(Some(id.clone())));
    assert!(matches!(action, Action::Open { frame, .. } if frame.len() <= MAX_AGENT_FRAME));
    let (stage, _) = step(stage, Event::AgentSent(true));
    let (_, action) = step(stage, Event::Gone);
    assert!(matches!(action, Action::Close { frame, .. } if frame == close_frame(&id) && frame.len() <= MAX_AGENT_FRAME));
}

#[test]
fn sizes_have_bounds() {
    assert_eq!((default_cols(), default_rows()), (120, 32));
    assert!(valid_size(default_cols(), default_rows()));
    assert!(valid_size(1, 1));
    assert!(valid_size(500, 200));
    assert!(!valid_size(501, 200));
    assert!(!valid_size(500, 201));
    assert!(!valid_size(0, 1));
    assert!(!valid_size(1, 0));
}

#[test]
fn input_is_measured_in_bytes_and_fits_the_agent() {
    let control = "\u{1}".repeat(MAX_INPUT);
    let frame = to_agent(&"f".repeat(64), &input(&control)).unwrap();
    assert!(frame.len() > 6 * MAX_INPUT && frame.len() <= MAX_AGENT_FRAME);
    assert!(to_agent("t", &input(&"a".repeat(MAX_INPUT + 1))).is_none());
    assert!(to_agent("t", &input(&"é".repeat(MAX_INPUT / 2))).is_some());
    assert!(to_agent("t", &input(&"é".repeat(MAX_INPUT / 2 + 1))).is_none());
}

#[test]
fn long_terminal_names_are_ignored() {
    let frame = |id: &str| format!(r#"{{"params":{{"terminal_id":"{id}"}}}}"#);
    assert_eq!(addressed_terminal(&frame(&"a".repeat(128))).as_deref(), Some("a".repeat(128).as_str()));
    assert_eq!(addressed_terminal(&frame(&"a".repeat(129))), None);
    assert_eq!(addressed_terminal(&frame(&"é".repeat(64))).map(|id| id.len()), Some(128));
    assert_eq!(addressed_terminal(&frame(&"é".repeat(65))), None);
    assert_eq!(addressed_terminal("no json"), None);
}

#[test]
fn messages_reach_the_browser_of_their_terminal() {
    let mut registry = Registry::new();
    let (tx, mut rx) = pipe(1);
    registry.insert("t".to_owned(), 7, tx);
    assert!(!registry.route("t", 8, "from a stranger"));
    assert!(!registry.route("u", 7, "for nobody"));
    assert!(rx.try_recv().is_err());
    assert!(!registry.route("t", 7, "hello"));
    assert_eq!(rx.try_recv().as_deref(), Ok("hello"));
    assert!(registry.is_open_on("t", 7));
    assert!(!registry.is_open_on("t", 8));
}

#[test]
fn a_browser_that_stops_reading_loses_its_terminal() {
    let mut registry = Registry::default();
    let (tx, rx) = pipe(1);
    registry.insert("t".to_owned(), 7, tx);
    assert!(!registry.route("t", 7, "one"));
    assert!(registry.route("t", 7, "two"));
    assert!(!registry.route("t", 7, "three"));
    assert!(!registry.is_open_on("t", 7));
    drop(rx);
    let (tx, rx) = pipe(1);
    registry.insert("t".to_owned(), 7, tx);
    drop(rx);
    assert!(registry.route("t", 7, "gone"));
}

#[test]
fn settling_closes_only_undelivered_terminals_of_the_node() {
    let mut registry = Registry::new();
    let (tx, _rx) = pipe(1);
    registry.insert("t".to_owned(), 7, tx);
    assert!(!registry.settle("t", 7, true));
    assert!(!registry.settle("t", 8, false));
    assert!(!registry.settle("u", 7, false));
    assert!(registry.is_open_on("t", 7));
    assert!(registry.settle("t", 7, false));
    assert!(!registry.is_open_on("t", 7));
}

#[test]
fn a_terminal_is_replaced_and_removed_by_name() {
    let mut registry = Registry::new();
    let (first, mut first_rx) = pipe(1);
    let (second, mut second_rx) = pipe(1);
    registry.insert("t".to_owned(), 7, first);
    registry.insert("t".to_owned(), 8, second);
    assert!(!registry.is_open_on("t", 7));
    assert!(!registry.route("t", 8, "x"));
    assert!(first_rx.try_recv().is_err());
    assert_eq!(second_rx.try_recv().as_deref(), Ok("x"));
    registry.remove("u");
    assert!(registry.is_open_on("t", 8));
    registry.remove("t");
    assert!(!registry.is_open_on("t", 8));
}

#[test]
fn disconnecting_a_node_tells_its_browsers_and_spares_the_others() {
    let mut registry = Registry::new();
    let (a, mut a_rx) = pipe(1);
    let (b, mut b_rx) = pipe(1);
    let (c, mut c_rx) = pipe(1);
    registry.insert("a".to_owned(), 7, a);
    registry.insert("b".to_owned(), 8, b);
    registry.insert("c".to_owned(), 7, c);
    registry.disconnect_node(7);
    for (id, rx) in [("a", &mut a_rx), ("c", &mut c_rx)] {
        let message = rx.try_recv().unwrap();
        assert_eq!(message, error_frame(id, "节点连接已断开"));
        assert_eq!(event_type(&message).as_deref(), Some("terminal.error"));
        assert!(!registry.is_open_on(id, 7));
    }
    assert!(b_rx.try_recv().is_err());
    assert!(registry.is_open_on("b", 8));
    for rx in [&mut a_rx, &mut c_rx] {
        assert!(rx.try_recv().is_err());
    }
    registry.disconnect_node(9);
    assert!(b_rx.try_recv().is_err());
    registry.disconnect_node(8);
    assert_eq!(b_rx.try_recv().unwrap(), error_frame("b", "节点连接已断开"));
    assert!(b_rx.try_recv().is_err());
    assert!(!registry.is_open_on("b", 8));
}

#[test]
fn frames_from_agents_are_forwarded_as_they_are() {
    let mut registry = Registry::new();
    let (tx, mut rx) = pipe(1);
    let (agent, mut agent_rx) = pipe(1);
    let mut agent = Line::new(agent);
    registry.insert("t".to_owned(), 7, tx);
    let output = r#"{"method":"terminal.output","params":{"terminal_id":"t","data":"x"}}"#;
    assert_eq!(from_agent(&mut registry, Some(&mut agent), 8, output), Forwarded::Ignored);
    assert_eq!(from_agent(&mut registry, Some(&mut agent), 7, "{"), Forwarded::Ignored);
    assert!(rx.try_recv().is_err());
    assert_eq!(from_agent(&mut registry, Some(&mut agent), 7, output), Forwarded::Delivered);
    assert!(agent_rx.try_recv().is_err());
    assert_eq!(from_agent(&mut registry, Some(&mut agent), 7, output), Forwarded::Dropped);
    assert_eq!(rx.try_recv().as_deref(), Ok(output));
    assert!(rx.try_recv().is_err());
    assert_eq!(agent_rx.try_recv().unwrap(), close_frame("t"));
    assert_eq!(from_agent(&mut registry, Some(&mut agent), 7, output), Forwarded::Ignored);
    assert!(agent_rx.try_recv().is_err());
    let (tx, rx) = pipe(1);
    registry.insert("t".to_owned(), 7, tx);
    drop(rx);
    assert_eq!(from_agent(&mut registry, None, 7, output), Forwarded::Dropped);
}

#[test]
fn only_signed_in_operators_with_a_session_are_admitted() {
    assert_eq!(admitted(true, Some("s".to_owned())).as_deref(), Some("s"));
    assert_eq!(admitted(true, None), None);
    assert_eq!(admitted(false, Some("s".to_owned())), None);
    let mut db = Db::new();
    db.create_session("s", i64::MAX);
    assert!(authed_hash(&db, "s"));
    assert!(!authed_hash(&db, "other"));
}

fn text(message: ClientMessage) -> Event {
    Event::Text { authed: true, message: Some(message) }
}

fn live() -> Stage {
    Stage::Live { terminal_id: "t".to_owned() }
}

fn is_live(stage: &Stage) -> bool {
    matches!(stage, Stage::Live { terminal_id } if terminal_id == "t")
}

fn is_close(result: &(Stage, Action)) -> bool {
    matches!(result, (Stage::Over, Action::Close { terminal_id, frame })
        if terminal_id == "t" && *frame == close_frame("t"))
}

fn refusal(result: (Stage, Action)) -> String {
    match result {
        (Stage::Over, Action::Refuse(text)) => text,
        other => panic!("{other:?}"),
    }
}

#[test]
fn a_session_opens_relays_and_closes() {
    let connect = ClientMessage::Connect { node_id: 3, cols: 80, rows: 24 };
    let (stage, action) = step(Stage::Greeting, text(connect));
    assert!(matches!(action, Action::FindAgent(3)));
    let (stage, action) = step(stage, Event::Agent(Some("t".to_owned())));
    assert!(matches!(action, Action::Open { ref terminal_id, node_id: 3, ref frame }
        if terminal_id == "t" && *frame == open_frame("t", 80, 24)));
    let (stage, action) = step(stage, Event::AgentSent(true));
    assert!(matches!(action, Action::Wait) && is_live(&stage));
    let (stage, action) = step(stage, text(input("ls\r")));
    assert!(matches!(action, Action::ToAgent(ref f) if *f == input_frame("t", "ls\r")));
    let (stage, action) = step(stage, Event::AgentSent(true));
    assert!(matches!(action, Action::Wait) && is_live(&stage));
    let output = r#"{"method":"terminal.output"}"#.to_owned();
    let (stage, action) = step(stage, Event::Output(Some(output.clone())));
    assert!(matches!(action, Action::ToBrowser(ref f) if *f == output));
    let (stage, action) = step(stage, Event::BrowserSent(true));
    assert!(matches!(action, Action::Wait) && is_live(&stage));
    let exit = r#"{"method":"terminal.exit"}"#.to_owned();
    let (stage, action) = step(stage, Event::Output(Some(exit)));
    assert!(matches!(action, Action::ToBrowser(_)));
    assert!(is_close(&step(stage, Event::BrowserSent(true))));
}

#[test]
fn a_terminal_gets_a_fresh_short_name() {
    assert!(matches!(agent_found(false), Event::Agent(None)));
    let name = || match agent_found(true) {
        Event::Agent(Some(id)) => id,
        other => panic!("{other:?}"),
    };
    let (a, b) = (name(), name());
    assert_ne!(a, b);
    assert_eq!(a.len(), 64);
    let frame = format!(r#"{{"params":{{"terminal_id":"{a}"}}}}"#);
    assert_eq!(addressed_terminal(&frame), Some(a));
}

#[test]
fn a_session_must_begin_with_a_good_connect() {
    assert_eq!(refusal(step(Stage::Greeting, text(input("x")))), notice("终端必须先选择一个节点"));
    let unread = Event::Text { authed: true, message: None };
    assert_eq!(refusal(step(Stage::Greeting, unread)), notice("终端必须先选择一个节点"));
    let big = ClientMessage::Connect { node_id: 3, cols: 501, rows: 24 };
    assert_eq!(refusal(step(Stage::Greeting, text(big))), notice("终端窗口大小无效"));
    for event in [Event::Binary(vec![1]), Event::Ping(vec![]), Event::Pong, Event::Gone] {
        assert!(matches!(step(Stage::Greeting, event), (Stage::Over, Action::Stop)));
    }
    let locating = Stage::Locating { node_id: 3, cols: 80, rows: 24 };
    assert_eq!(refusal(step(locating, Event::Agent(None))), notice("节点当前不在线"));
    let opening = Stage::Opening { terminal_id: "t".to_owned() };
    assert!(matches!(step(opening, Event::AgentSent(false)),
        (Stage::Over, Action::Abandon { terminal_id, notice: n }) if terminal_id == "t" && n == notice("节点连接已断开")));
}

#[test]
fn a_signed_out_operator_is_cut_off() {
    let typed = Event::Text { authed: false, message: Some(input("rm -rf /\r")) };
    assert!(is_close(&step(live(), typed)));
    assert!(is_close(&step(live(), Event::Tick { authed: false })));
    let (stage, action) = step(live(), Event::Tick { authed: true });
    assert!(is_live(&stage) && matches!(action, Action::Wait));
}

#[test]
fn binary_input_is_read_as_utf8_as_far_as_it_goes() {
    let (stage, action) = step(live(), Event::Binary(vec![b'a', 0xff, 0xe2, 0x82, b'b', 0xc3, 0xa9]));
    assert!(matches!(stage, Stage::Forwarding { .. }));
    assert!(matches!(action, Action::ToAgent(f) if f == input_frame("t", "a\u{fffd}\u{fffd}bé")));
    let (_, action) = step(live(), Event::Binary(vec![0; MAX_INPUT]));
    assert!(matches!(action, Action::ToAgent(f) if f.len() <= MAX_AGENT_FRAME));
    let (stage, action) = step(live(), Event::Binary(vec![0; MAX_INPUT + 1]));
    assert!(is_live(&stage) && matches!(action, Action::Wait));
}

#[test]
fn a_live_session_ends_when_either_side_goes() {
    assert!(is_close(&step(live(), Event::Gone)));
    assert!(is_close(&step(live(), Event::Output(None))));
    let forwarding = Stage::Forwarding { terminal_id: "t".to_owned() };
    assert!(is_close(&step(forwarding, Event::AgentSent(false))));
    let showing = Stage::Showing { terminal_id: "t".to_owned(), last: false };
    assert!(is_close(&step(showing, Event::BrowserSent(false))));
    let (stage, action) = step(live(), Event::Ping(vec![1, 2]));
    assert!(matches!(action, Action::Pong(data) if data == vec![1, 2]));
    let (stage, action) = step(stage, Event::BrowserSent(true));
    assert!(is_live(&stage) && matches!(action, Action::Wait));
}

#[test]
fn what_cannot_be_relayed_is_ignored() {
    let ignored = [
        text(ClientMessage::Connect { node_id: 1, cols: 80, rows: 24 }),
        text(ClientMessage::Resize { cols: 0, rows: 24 }),
        text(input(&"a".repeat(MAX_INPUT + 1))),
        Event::Text { authed: true, message: None },
        Event::Pong,
        Event::AgentSent(false),
        Event::BrowserSent(false),
        Event::Agent(None),
    ];
    for event in ignored {
        let (stage, action) = step(live(), event);
        assert!(is_live(&stage) && matches!(action, Action::Wait));
    }
    assert!(matches!(step(Stage::Over, Event::Gone), (Stage::Over, Action::Wait)));
}

#[test]
fn a_lost_node_ends_the_session() {
    let mut registry = Registry::new();
    let (tx, mut rx) = pipe(1);
    registry.insert("t".to_owned(), 7, tx);
    registry.disconnect_node(7);
    let (stage, action) = step(live(), Event::Output(rx.try_recv().ok()));
    assert!(matches!(action, Action::ToBrowser(_)));
    assert!(is_close(&step(stage, Event::BrowserSent(true))));
}
