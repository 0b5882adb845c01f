use httpcore::app::{App, Dispatch};
use httpcore::connection::{
    read_line_text, strip_line, Action, Connection, ConnectionError, Event, Phase,
};
use httpcore::request::{BodyDecodeError, HttpRequest, RequestBody, RequestType};
use httpcore::response::HttpResponse;
use serde_json::Value;

const BAD_REQUEST: &str =
    "HTTP/1.1 400 Bad Request\r\nContent-Type: text/plain\r\nContent-Length: 0\r\n\r\n";

fn line(conn: &mut Connection, text: &str) -> Action {
    conn.step(Event::Line(text.as_bytes().to_vec()))
}

fn home(_req: HttpRequest, mut res: HttpResponse) -> Option<String> {
    res.status(201).send("Home")
}

fn add(req: HttpRequest, mut res: HttpResponse) -> Option<String> {
    let map = match req.body {
        RequestBody::String(_) => return res.status(400).send("Wrong body form"),
        RequestBody::Fields(map) => map,
    };
    let value = match map.get("value") {
        Some(v) => v,
        None => return res.status(400).send("No value in body"),
    };
    let value = match value.as_i64() {
        Some(v) => v,
        None => return res.status(400).send("Wrong value"),
    };
    if value < 30 {
        res.status(200).send("Value is lesser than 30")
    } else {
        res.status(200).send("Value is equal or greater than 30")
    }
}

type Handler = fn(HttpRequest, HttpResponse) -> Option<String>;

fn registry() -> App<Handler> {
    let mut app: App<Handler> = App::new("127.0.0.1:8080");
    app.get("/", home);
    app.post("/add", add);
    app
}

fn answer(app: &App<Handler>, conn: Connection) -> String {
    let req = conn.into_request();
    let outcome = match app.dispatch(&req) {
        Dispatch::Invoke(h) => Ok(*h),
        Dispatch::NotFound(text) => Err(text),
    };
    match outcome {
        Ok(h) => h(req, HttpResponse::new()).unwrap(),
        Err(text) => text,
    }
}

#[test]
fn new_connection_awaits_the_request_line() {
    let conn = Connection::new();
    assert_eq!(conn.phase(), Phase::AwaitingRequestLine);
    assert_eq!(conn.request().route, "");
    assert_eq!(conn.request().request_type, RequestType::UNDEFINED);
    assert_eq!(conn.body_error(), None);
    assert_eq!(conn.failure(), None);
}

#[test]
fn get_home_is_answered_with_201() {
    let app = registry();
    let mut conn = Connection::new();
    assert!(matches!(line(&mut conn, "GET / HTTP/1.1\r\n"), Action::ReadLine));
    assert_eq!(conn.phase(), Phase::ParsingHeaders);
    assert!(matches!(line(&mut conn, "Host: x\r\n"), Action::ReadLine));
    assert_eq!(conn.phase(), Phase::ParsingHeaders);
    assert!(matches!(line(&mut conn, "\r\n"), Action::ReadBody(0)));
    assert_eq!(conn.phase(), Phase::ReadingBody);
    assert!(matches!(conn.step(Event::Body(Vec::new())), Action::Dispatch));
    assert_eq!(conn.phase(), Phase::Dispatching);
    assert_eq!(conn.request().request_type, RequestType::GET);
    assert_eq!(conn.request().route, "/");
    assert_eq!(conn.request().header.host, "x");
    let text = answer(&app, conn);
    assert_eq!(text, "HTTP/1.1 201 OK\r\nContent-Type: text/plain\r\nContent-Length: 4\r\n\r\nHome");
    assert!(text.starts_with("HTTP/1.1 201 OK\r\n"));
    assert!(text.ends_with("\r\n\r\nHome"));
}

#[test]
fn post_add_hands_the_fields_to_the_handler() {
    let app = registry();
    let mut conn = Connection::new();
    assert!(matches!(line(&mut conn, "POST /add HTTP/1.1\r\n"), Action::ReadLine));
    assert!(matches!(line(&mut conn, "Content-Type: application/json\r\n"), Action::ReadLine));
    assert!(matches!(line(&mut conn, "Content-Length: 12\r\n"), Action::ReadLine));
    assert!(matches!(line(&mut conn, "\r\n"), Action::ReadBody(12)));
    let body = "{\"value\":42}".as_bytes().to_vec();
    assert!(matches!(conn.step(Event::Body(body)), Action::Dispatch));
    match &conn.request().body {
        RequestBody::Fields(m) => {
            assert_eq!(m.len(), 1);
            assert_eq!(m.get("value"), Some(&Value::from(42)));
        },
        RequestBody::String(_) => panic!("fields expected"),
    }
    assert_eq!(
        answer(&app, conn),
        "HTTP/1.1 200 OK\r\nContent-Type: text/plain\r\nContent-Length: 33\r\n\r\nValue is equal or greater than 30"
    );
}

#[test]
fn declared_length_of_13_takes_13_bytes() {
    let app = registry();
    let mut conn = Connection::new();
    line(&mut conn, "POST /add HTTP/1.1\r\n");
    line(&mut conn, "Content-Type: application/json\r\n");
    line(&mut conn, "Content-Length: 13\r\n");
    assert!(matches!(line(&mut conn, "\r\n"), Action::ReadBody(13)));
    let body = "{\"value\":42}\n".as_bytes().to_vec();
    assert!(matches!(conn.step(Event::Body(body)), Action::Dispatch));
    assert!(answer(&app, conn).ends_with("\r\n\r\nValue is equal or greater than 30"));
}

#[test]
fn small_value_is_told() {
    let app = registry();
    let mut conn = Connection::new();
    line(&mut conn, "POST /add HTTP/1.1\n");
    line(&mut conn, "Content-Type: application/json\n");
    line(&mut conn, "Content-Length: 11\n");
    assert!(matches!(line(&mut conn, "\n"), Action::ReadBody(11)));
    assert!(matches!(conn.step(Event::Body(b"{\"value\":7}".to_vec())), Action::Dispatch));
    assert!(answer(&app, conn).ends_with("\r\n\r\nValue is lesser than 30"));
}

#[test]
fn short_body_is_answered_with_400() {
    let mut conn = Connection::new();
    line(&mut conn, "POST /add HTTP/1.1\r\n");
    line(&mut conn, "Content-Type: application/json\r\n");
    line(&mut conn, "Content-Length: 13\r\n");
    line(&mut conn, "\r\n");
    let body = "{\"value\":42}".as_bytes().to_vec();
    match conn.step(Event::Body(body)) {
        Action::Write(text) => assert_eq!(text, BAD_REQUEST),
        _ => panic!("a response expected"),
    }
    assert_eq!(conn.phase(), Phase::Error);
    assert_eq!(conn.failure(), Some(ConnectionError::BodyReadShortfall));
    assert!(matches!(conn.step(Event::Written), Action::Close));
    assert_eq!(conn.phase(), Phase::Closed);
    assert_eq!(conn.failure(), Some(ConnectionError::BodyReadShortfall));
}

#[test]
fn longer_body_than_declared_is_answered_with_400() {
    let mut conn = Connection::new();
    line(&mut conn, "POST /add HTTP/1.1\r\n");
    line(&mut conn, "Content-Length: 2\r\n");
    line(&mut conn, "\r\n");
    assert!(matches!(conn.step(Event::Body(b"abc".to_vec())), Action::Write(_)));
    assert_eq!(conn.failure(), Some(ConnectionError::BodyReadShortfall));
}

#[test]
fn failed_read_is_answered_with_400() {
    for lines in 0..3 {
        let mut conn = Connection::new();
        let all = ["GET / HTTP/1.1\r\n", "\r\n"];
        for text in &all[..lines] {
            line(&mut conn, text);
        }
        match conn.step(Event::ReadFailed) {
            Action::Write(text) => assert_eq!(text, BAD_REQUEST),
            _ => panic!("a response expected"),
        }
        assert_eq!(conn.phase(), Phase::Error);
        assert_eq!(conn.failure(), Some(ConnectionError::ReadError));
    }
}

#[test]
fn event_out_of_turn_is_answered_with_400() {
    let mut conn = Connection::new();
    match conn.step(Event::Body(Vec::new())) {
        Action::Write(text) => assert_eq!(text, BAD_REQUEST),
        _ => panic!("a response expected"),
    }
    assert_eq!(conn.failure(), Some(ConnectionError::UnexpectedEvent));
    let mut conn = Connection::new();
    line(&mut conn, "GET / HTTP/1.1\r\n");
    assert!(matches!(conn.step(Event::Written), Action::Write(_)));
    assert_eq!(conn.failure(), Some(ConnectionError::UnexpectedEvent));
    let mut conn = Connection::new();
    line(&mut conn, "GET / HTTP/1.1\r\n");
    line(&mut conn, "\r\n");
    assert!(matches!(line(&mut conn, "more\r\n"), Action::Write(_)));
    assert_eq!(conn.failure(), Some(ConnectionError::UnexpectedEvent));
    let mut conn = Connection::new();
    line(&mut conn, "GET / HTTP/1.1\r\n");
    line(&mut conn, "\r\n");
    conn.step(Event::Body(Vec::new()));
    assert!(matches!(conn.step(Event::WriteFailed), Action::Write(_)));
    assert_eq!(conn.failure(), Some(ConnectionError::UnexpectedEvent));
}

#[test]
fn unknown_content_type_drops_the_payload() {
    let mut conn = Connection::new();
    line(&mut conn, "POST /add HTTP/1.1\r\n");
    line(&mut conn, "Content-Type: application/xml\r\n");
    line(&mut conn, "Content-Length: 4\r\n");
    line(&mut conn, "\r\n");
    assert!(matches!(conn.step(Event::Body(b"<a/>".to_vec())), Action::Dispatch));
    assert_eq!(conn.body_error(), None);
    assert_eq!(conn.failure(), None);
    match &conn.request().body {
        RequestBody::String(s) => assert_eq!(s, ""),
        RequestBody::Fields(_) => panic!("text expected"),
    }
}

#[test]
fn undecodable_body_is_left_to_the_handler() {
    let app = registry();
    let mut conn = Connection::new();
    line(&mut conn, "POST /add HTTP/1.1\r\n");
    line(&mut conn, "Content-Type: application/json\r\n");
    line(&mut conn, "Content-Length: 5\r\n");
    line(&mut conn, "\r\n");
    assert_eq!(conn.body_error(), None);
    assert!(matches!(conn.step(Event::Body(b"{\"a\":".to_vec())), Action::Dispatch));
    assert_eq!(conn.phase(), Phase::Dispatching);
    assert_eq!(conn.body_error(), Some(BodyDecodeError::InvalidJson));
    assert_eq!(conn.failure(), None);
    match &conn.request().body {
        RequestBody::String(s) => assert_eq!(s, ""),
        RequestBody::Fields(_) => panic!("text expected"),
    }
    assert_eq!(
        answer(&app, conn),
        "HTTP/1.1 400 OK\r\nContent-Type: text/plain\r\nContent-Length: 15\r\n\r\nWrong body form"
    );
}

#[test]
fn undecodable_body_for_no_route_is_not_found() {
    let app = registry();
    let mut conn = Connection::new();
    line(&mut conn, "POST /other HTTP/1.1\r\n");
    line(&mut conn, "Content-Type: application/json\r\n");
    line(&mut conn, "Content-Length: 1\r\n");
    line(&mut conn, "\r\n");
    assert!(matches!(conn.step(Event::Body(b"{".to_vec())), Action::Dispatch));
    assert_eq!(
        answer(&app, conn),
        "HTTP/1.1 404 Not Found\r\nContent-Type: text/plain\r\nContent-length: 0\r\n\r\n"
    );
}

#[test]
fn bytes_that_are_no_text_are_answered_with_400() {
    let mut conn = Connection::new();
    match conn.step(Event::Line(vec![0x47, 0x45, 0x54, 0x20, 0xff, 0xfe, 0x0a])) {
        Action::Write(text) => assert_eq!(text, BAD_REQUEST),
        _ => panic!("a response expected"),
    }
    assert_eq!(conn.failure(), Some(ConnectionError::MalformedRequestLine));
    let mut conn = Connection::new();
    line(&mut conn, "GET / HTTP/1.1\r\n");
    assert!(matches!(conn.step(Event::Line(vec![0xc3, 0x28, 0x0a])), Action::Write(_)));
    assert_eq!(conn.failure(), Some(ConnectionError::MalformedHeader));
    let mut conn = Connection::new();
    line(&mut conn, "POST / HTTP/1.1\r\n");
    line(&mut conn, "Content-Type: text/plain\r\n");
    line(&mut conn, "Content-Length: 2\r\n");
    line(&mut conn, "\r\n");
    assert!(matches!(conn.step(Event::Body(vec![0xc3, 0x28])), Action::Write(_)));
    assert_eq!(conn.failure(), Some(ConnectionError::MalformedBody));
}

#[test]
fn blank_request_line_is_answered_with_400() {
    for text in ["", "\r\n", "\n"] {
        let mut conn = Connection::new();
        match line(&mut conn, text) {
            Action::Write(t) => assert_eq!(t, BAD_REQUEST),
            _ => panic!("a response expected"),
        }
        assert_eq!(conn.phase(), Phase::Error);
        assert_eq!(conn.failure(), Some(ConnectionError::MalformedRequestLine));
    }
}

#[test]
fn end_of_stream_ends_the_header() {
    let mut conn = Connection::new();
    line(&mut conn, "GET / HTTP/1.1\r\n");
    line(&mut conn, "Content-Length: 3");
    assert!(matches!(line(&mut conn, ""), Action::ReadBody(3)));
}

#[test]
fn text_body_reaches_the_handler_unchanged() {
    let mut conn = Connection::new();
    line(&mut conn, "POST /echo HTTP/1.1\r\n");
    line(&mut conn, "Content-Type: text/plain\r\n");
    line(&mut conn, "Content-Length: 9\r\n");
    line(&mut conn, "\r\n");
    assert!(matches!(conn.step(Event::Body(b" a\r\nb \xc3\xa9\n".to_vec())), Action::Dispatch));
    match &conn.request().body {
        RequestBody::String(s) => assert_eq!(s, " a\r\nb \u{e9}\n"),
        RequestBody::Fields(_) => panic!("text expected"),
    }
}

#[test]
fn unknown_route_is_answered_with_404() {
    let app = registry();
    let mut conn = Connection::new();
    line(&mut conn, "GET /missing HTTP/1.1\r\n");
    line(&mut conn, "\r\n");
    assert!(matches!(conn.step(Event::Body(Vec::new())), Action::Dispatch));
    let text = answer(&app, conn);
    assert_eq!(
        text,
        "HTTP/1.1 404 Not Found\r\nContent-Type: text/plain\r\nContent-length: 0\r\n\r\n"
    );
}

#[test]
fn response_is_written_then_the_connection_closes() {
    let mut conn = Connection::new();
    line(&mut conn, "GET / HTTP/1.1\r\n");
    line(&mut conn, "\r\n");
    conn.step(Event::Body(Vec::new()));
    match conn.step(Event::Response("HTTP/1.1 200 OK\r\n\r\n".to_string())) {
        Action::Write(text) => assert_eq!(text, "HTTP/1.1 200 OK\r\n\r\n"),
        _ => panic!("a response expected"),
    }
    assert_eq!(conn.phase(), Phase::WritingResponse);
    assert!(matches!(conn.step(Event::Written), Action::Close));
    assert_eq!(conn.phase(), Phase::Closed);
    assert!(matches!(conn.step(Event::Response("again".to_string())), Action::Close));
    assert_eq!(conn.phase(), Phase::Closed);
    assert_eq!(conn.failure(), None);
}

#[test]
fn failed_write_closes_the_connection() {
    let mut conn = Connection::new();
    line(&mut conn, "GET / HTTP/1.1\r\n");
    line(&mut conn, "\r\n");
    conn.step(Event::Body(Vec::new()));
    conn.step(Event::Response("r".to_string()));
    assert!(matches!(conn.step(Event::WriteFailed), Action::Close));
    assert_eq!(conn.phase(), Phase::Closed);
    assert_eq!(conn.failure(), Some(ConnectionError::WriteFailure));
}

#[test]
fn failed_write_of_an_error_response_keeps_the_first_reason() {
    let mut conn = Connection::new();
    assert!(matches!(conn.step(Event::ReadFailed), Action::Write(_)));
    assert!(matches!(conn.step(Event::WriteFailed), Action::Close));
    assert_eq!(conn.phase(), Phase::Closed);
    assert_eq!(conn.failure(), Some(ConnectionError::ReadError));
}

#[test]
fn silent_handler_is_answered_with_400() {
    let mut conn = Connection::new();
    line(&mut conn, "GET / HTTP/1.1\r\n");
    line(&mut conn, "\r\n");
    conn.step(Event::Body(Vec::new()));
    match conn.step(Event::Unanswered) {
        Action::Write(text) => assert_eq!(text, BAD_REQUEST),
        _ => panic!("a response expected"),
    }
    assert_eq!(conn.failure(), Some(ConnectionError::NoResponse));
}

#[test]
fn every_run_writes_once() {
    let events: [fn() -> Event; 7] = [
        || Event::Line(b"GET / HTTP/1.1\r\n".to_vec()),
        || Event::Line(b"\r\n".to_vec()),
        || Event::Body(Vec::new()),
        || Event::Response("r".to_string()),
        || Event::ReadFailed,
        || Event::Written,
        || Event::Unanswered,
    ];
    for a in 0..7 {
        for b in 0..7 {
            for c in 0..7 {
                for d in 0..7 {
                    for e in 0..7 {
                        let mut conn = Connection::new();
                        let mut writes = 0;
                        for i in [a, b, c, d, e] {
                            if let Action::Write(_) = conn.step(events[i]()) {
                                writes += 1;
                            }
                        }
                        let answered = matches!(
                            conn.phase(),
                            Phase::WritingResponse | Phase::Error | Phase::Closed
                        );
                        assert_eq!(writes, if answered { 1 } else { 0 });
                        if conn.phase() == Phase::Error {
                            assert!(conn.failure().is_some());
                        }
                        if !answered {
                            assert_eq!(conn.failure(), None);
                        }
                    }
                }
            }
        }
    }
}

#[test]
fn line_ends_are_taken_off() {
    assert_eq!(strip_line("Host: x\r\n"), "Host: x");
    assert_eq!(strip_line("Host: x\n"), "Host: x");
    assert_eq!(strip_line("Host: x"), "Host: x");
    assert_eq!(strip_line("Host: x \r\n"), "Host: x ");
    assert_eq!(strip_line("a\r"), "a\r");
    assert_eq!(strip_line("a\n\n"), "a\n");
    assert_eq!(strip_line("a\r\r\n"), "a\r");
    assert_eq!(strip_line("\r\n"), "");
    assert_eq!(strip_line("\n"), "");
    assert_eq!(strip_line(""), "");
}

#[test]
fn line_text_is_decoded() {
    assert_eq!(read_line_text(b"caf\xc3\xa9\r\n".to_vec()).as_deref(), Some("caf\u{e9}"));
    assert_eq!(read_line_text(b"".to_vec()).as_deref(), Some(""));
    assert_eq!(read_line_text(vec![0x80]), None);
    assert_eq!(read_line_text(vec![0xed, 0xa0, 0x80]), None);
}
