use sal_server::{error_response, on_accept, AcceptOutcome, Action, Connection, Event, Mode, Phase};

const HEAD: &str =
    "HTTP/1.1 520 LOVE YOU\r\nContent-Type: text/plain; charset=utf-8\r\nConnection: close\r\n\r\n";

fn diagnostic(message: &str) -> Vec<u8> {
    format!("{}{}\r\n", HEAD, message).into_bytes()
}

fn expect_fail(action: Action, message: &str) {
    match action {
        Action::Fail { message: carried, response } => {
            assert_eq!(carried, message);
            assert_eq!(response, diagnostic(message));
        }
        other => panic!("unexpected action {:?}", other),
    }
}

fn expect_close(action: Action) {
    assert!(matches!(action, Action::Close), "unexpected action {:?}", action);
}

fn every_event() -> Vec<Event> {
    vec![
        Event::Read(vec![1, 2, 3]),
        Event::Read(Vec::new()),
        Event::ReadFailed(String::from("r")),
        Event::Routed(vec![4], true),
        Event::Routed(vec![4], false),
        Event::RouteFailed(String::from("h")),
        Event::Written,
        Event::WriteFailed(String::from("w")),
        Event::Flushed,
        Event::FlushFailed(String::from("f")),
    ]
}

fn dispatched(mode: Mode, bytes: &[u8]) -> Connection {
    let mut connection = Connection::new(mode);
    let action = connection.step(Event::Read(bytes.to_vec()));
    assert!(matches!(action, Action::RouteRaw(_) | Action::RouteHttp(_)));
    connection
}

#[test]
fn error_response_has_fixed_shape() {
    assert_eq!(
        error_response("Empty Input!"),
        b"HTTP/1.1 520 LOVE YOU\r\nContent-Type: text/plain; charset=utf-8\r\nConnection: close\r\n\r\nEmpty Input!\r\n".to_vec()
    );
    assert_eq!(error_response(""), format!("{}\r\n", HEAD).into_bytes());
    assert_eq!(error_response("ошибка ✗"), diagnostic("ошибка ✗"));
}

#[test]
fn new_connection_awaits_a_read() {
    let connection = Connection::new(Mode::Http);
    assert_eq!(connection.mode(), Mode::Http);
    assert_eq!(connection.phase(), Phase::Reading);
    assert_eq!(Connection::new(Mode::Raw).mode(), Mode::Raw);
}

#[test]
fn raw_mode_routes_the_bytes_unparsed() {
    let mut connection = Connection::new(Mode::Raw);
    match connection.step(Event::Read(b"no structure at all".to_vec())) {
        Action::RouteRaw(bytes) => assert_eq!(bytes, b"no structure at all".to_vec()),
        other => panic!("unexpected action {:?}", other),
    }
    assert_eq!(connection.phase(), Phase::Dispatching { read: 19 });
}

#[test]
fn http_mode_routes_the_parsed_request() {
    let mut connection = Connection::new(Mode::Http);
    let bytes = b"GET /x HTTP/1.1\r\nHost: a\r\nHost: b\r\n\r\nBODY".to_vec();
    let length = bytes.len();
    match connection.step(Event::Read(bytes)) {
        Action::RouteHttp(request) => {
            assert_eq!(request.method, "GET");
            assert_eq!(request.path, "/x");
            assert_eq!(request.headers.get("Host"), Some(&String::from("b")));
            assert_eq!(request.headers.pairs().len(), 1);
            assert_eq!(request.body, "BODY");
        }
        other => panic!("unexpected action {:?}", other),
    }
    assert_eq!(connection.phase(), Phase::Dispatching { read: length });
}

#[test]
fn close_after_exactly_one_write() {
    for mode in [Mode::Raw, Mode::Http] {
        let mut connection = dispatched(mode, b"GET / H\r\n\r\n");
        match connection.step(Event::Routed(b"response".to_vec(), false)) {
            Action::Write(bytes) => assert_eq!(bytes, b"response".to_vec()),
            other => panic!("unexpected action {:?}", other),
        }
        assert_eq!(
            connection.phase(),
            Phase::Writing { read: 11, keep_alive: false }
        );
        expect_close(connection.step(Event::Written));
        assert_eq!(connection.phase(), Phase::Closed);
        for event in every_event() {
            expect_close(connection.step(event));
            assert_eq!(connection.phase(), Phase::Closed);
        }
    }
}

#[test]
fn keep_alive_consumes_flushes_then_reads() {
    for mode in [Mode::Raw, Mode::Http] {
        let mut connection = dispatched(mode, b"GET / H\r\n\r\nabc");
        match connection.step(Event::Routed(b"ok".to_vec(), true)) {
            Action::Write(bytes) => assert_eq!(bytes, b"ok".to_vec()),
            other => panic!("unexpected action {:?}", other),
        }
        match connection.step(Event::Written) {
            Action::ConsumeAndFlush(count) => assert_eq!(count, 14),
            other => panic!("unexpected action {:?}", other),
        }
        assert_eq!(connection.phase(), Phase::Flushing);
        assert!(matches!(connection.step(Event::Flushed), Action::Read));
        assert_eq!(connection.phase(), Phase::Reading);
        assert_eq!(connection.mode(), mode);
        let action = connection.step(Event::Read(b"POST /2 H\r\n\r\n".to_vec()));
        assert!(matches!(action, Action::RouteRaw(_) | Action::RouteHttp(_)));
        assert_eq!(connection.phase(), Phase::Dispatching { read: 13 });
    }
}

#[test]
fn empty_read_fails() {
    for mode in [Mode::Raw, Mode::Http] {
        let mut connection = Connection::new(mode);
        expect_fail(connection.step(Event::Read(Vec::new())), "Empty Input!");
        assert_eq!(connection.phase(), Phase::Closed);
    }
}

#[test]
fn malformed_request_fails() {
    for bytes in [&b"GET /x HTTP/1.1\r\n"[..], &b"GET /x\r\n\r\n"[..]] {
        let mut connection = Connection::new(Mode::Http);
        expect_fail(
            connection.step(Event::Read(bytes.to_vec())),
            "Non-Standard HTTP Structure!",
        );
        assert_eq!(connection.phase(), Phase::Closed);
    }
}

#[test]
fn read_failure_fails() {
    let mut connection = Connection::new(Mode::Raw);
    expect_fail(
        connection.step(Event::ReadFailed(String::from("connection reset"))),
        "connection reset",
    );
    assert_eq!(connection.phase(), Phase::Closed);
}

#[test]
fn route_fault_fails() {
    let mut connection = dispatched(Mode::Raw, b"x");
    expect_fail(
        connection.step(Event::RouteFailed(String::from("handler fault"))),
        "handler fault",
    );
    assert_eq!(connection.phase(), Phase::Closed);
}

#[test]
fn write_failure_fails() {
    for keep_alive in [true, false] {
        let mut connection = dispatched(Mode::Raw, b"x");
        connection.step(Event::Routed(vec![1], keep_alive));
        expect_fail(
            connection.step(Event::WriteFailed(String::from("broken pipe"))),
            "broken pipe",
        );
        assert_eq!(connection.phase(), Phase::Closed);
    }
}

#[test]
fn flush_failure_fails() {
    let mut connection = dispatched(Mode::Raw, b"x");
    connection.step(Event::Routed(vec![1], true));
    connection.step(Event::Written);
    expect_fail(
        connection.step(Event::FlushFailed(String::from("flush failed"))),
        "flush failed",
    );
    assert_eq!(connection.phase(), Phase::Closed);
    expect_close(connection.step(Event::Flushed));
}

#[test]
fn unawaited_event_closes_without_a_write() {
    let awaited = |phase: usize, event: usize| match phase {
        0 => event <= 2,
        1 => (3..=5).contains(&event),
        2 => event == 6 || event == 7,
        _ => event >= 8,
    };
    for phase in 0..4 {
        for (index, event) in every_event().into_iter().enumerate() {
            if awaited(phase, index) {
                continue;
            }
            let mut connection = Connection::new(Mode::Raw);
            if phase >= 1 {
                connection.step(Event::Read(vec![9]));
            }
            if phase >= 2 {
                connection.step(Event::Routed(vec![1], true));
            }
            if phase >= 3 {
                connection.step(Event::Written);
            }
            expect_close(connection.step(event));
            assert_eq!(connection.phase(), Phase::Closed);
        }
    }
}

#[test]
fn accept_failure_is_skipped() {
    let outcomes = [
        AcceptOutcome::Failed,
        AcceptOutcome::Connected,
        AcceptOutcome::Failed,
        AcceptOutcome::Failed,
        AcceptOutcome::Connected,
    ];
    let mut handlers = Vec::new();
    for outcome in outcomes {
        if let Some(connection) = on_accept(Mode::Http, outcome) {
            assert_eq!(connection.mode(), Mode::Http);
            assert_eq!(connection.phase(), Phase::Reading);
            handlers.push(connection);
        }
    }
    assert_eq!(handlers.len(), 2);
    assert!(on_accept(Mode::Raw, AcceptOutcome::Failed).is_none());
    assert_eq!(
        on_accept(Mode::Raw, AcceptOutcome::Connected).map(|c| c.mode()),
        Some(Mode::Raw)
    );
}
