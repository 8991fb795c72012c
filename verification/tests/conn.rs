use tinyhttpd::conn::{
    BodySource, CloseReason, Conn, ConnAction, ConnEvent, OpenOutcome,
};
use tinyhttpd::request::ParseError;

fn line(s: &str) -> ConnEvent {
    ConnEvent::Line(String::from(s))
}

fn expect_read_line(a: ConnAction) {
    assert!(matches!(a, ConnAction::ReadLine));
}

fn expect_write(a: ConnAction) -> (String, BodySource) {
    match a {
        ConnAction::WriteResponse { head, body } => (head, body),
        other => panic!("expected a response to write, got {:?}", dbg_name(&other)),
    }
}

fn dbg_name(a: &ConnAction) -> &'static str {
    match a {
        ConnAction::ReadLine => "ReadLine",
        ConnAction::ProbeDir(_) => "ProbeDir",
        ConnAction::OpenFile(_) => "OpenFile",
        ConnAction::WriteResponse { .. } => "WriteResponse",
        ConnAction::Close(_) => "Close",
    }
}

#[test]
fn get_with_implicit_index_serves_the_index_file() {
    let mut c = Conn::new(String::from("content"), true);
    expect_read_line(c.step(line("GET / HTTP/1.1\r\n")));
    let a = c.step(line("\r\n"));
    match a {
        ConnAction::ProbeDir(p) => assert_eq!(p, "content"),
        other => panic!("expected a probe, got {:?}", dbg_name(&other)),
    }
    let a = c.step(ConnEvent::Probe(true));
    match a {
        ConnAction::OpenFile(p) => assert_eq!(p, "content/index.html"),
        other => panic!("expected an open, got {:?}", dbg_name(&other)),
    }
    let (head, body) = expect_write(c.step(ConnEvent::Opened(OpenOutcome::Opened(1234))));
    assert_eq!(
        head,
        "HTTP/1.1 200 OK\r\nContent-Type: text/html; charset=utf-8\r\nContent-Length: 1234\r\n\r\n",
    );
    assert!(matches!(body, BodySource::OpenedFile));
    expect_read_line(c.step(ConnEvent::Written(true)));
}

#[test]
fn get_on_a_missing_path_is_404_with_reason_body() {
    let mut c = Conn::new(String::from("content"), true);
    expect_read_line(c.step(line("GET /does-not-exist HTTP/1.1\r\n")));
    let a = c.step(line("\r\n"));
    match a {
        ConnAction::ProbeDir(p) => assert_eq!(p, "content/does-not-exist"),
        other => panic!("expected a probe, got {:?}", dbg_name(&other)),
    }
    let a = c.step(ConnEvent::Probe(false));
    match a {
        ConnAction::OpenFile(p) => assert_eq!(p, "content/does-not-exist"),
        other => panic!("expected an open, got {:?}", dbg_name(&other)),
    }
    let (head, body) = expect_write(c.step(ConnEvent::Opened(OpenOutcome::NotFound)));
    assert_eq!(head, "HTTP/1.1 404 Not Found\r\nContent-Length: 9\r\n\r\n");
    match body {
        BodySource::InMemory(b) => assert_eq!(b, b"Not Found".to_vec()),
        BodySource::OpenedFile => panic!("404 body must be in memory"),
    }
    expect_read_line(c.step(ConnEvent::Written(true)));
}

#[test]
fn other_open_errors_are_500() {
    let mut c = Conn::new(String::from("content"), false);
    expect_read_line(c.step(line("GET /locked HTTP/1.1\r\n")));
    let a = c.step(line("\r\n"));
    match a {
        ConnAction::OpenFile(p) => assert_eq!(p, "content/locked"),
        other => panic!("expected an open, got {:?}", dbg_name(&other)),
    }
    let (head, body) = expect_write(c.step(ConnEvent::Opened(OpenOutcome::OtherError)));
    assert_eq!(head, "HTTP/1.1 500 Internal Server Error\r\nContent-Length: 21\r\n\r\n");
    match body {
        BodySource::InMemory(b) => assert_eq!(b, b"Internal Server Error".to_vec()),
        BodySource::OpenedFile => panic!("500 body must be in memory"),
    }
}

#[test]
fn non_get_is_405_and_connection_stays_usable() {
    let mut c = Conn::new(String::from("content"), true);
    expect_read_line(c.step(line("POST / HTTP/1.1\r\n")));
    expect_read_line(c.step(line("x-header: ignored\r\n")));
    let (head, body) = expect_write(c.step(line("\r\n")));
    assert_eq!(head, "HTTP/1.1 405 Method Not Allowed\r\nContent-Length: 18\r\n\r\n");
    match body {
        BodySource::InMemory(b) => assert_eq!(b, b"Method Not Allowed".to_vec()),
        BodySource::OpenedFile => panic!("405 body must be in memory"),
    }
    expect_read_line(c.step(ConnEvent::Written(true)));
    expect_read_line(c.step(line("GET / HTTP/1.1\r\n")));
    c.step(line("\r\n"));
    c.step(ConnEvent::Probe(true));
    let (head, _) = expect_write(c.step(ConnEvent::Opened(OpenOutcome::Opened(3))));
    assert_eq!(
        head,
        "HTTP/1.1 200 OK\r\nContent-Type: text/html; charset=utf-8\r\nContent-Length: 3\r\n\r\n",
    );
}

#[test]
fn two_identical_gets_give_identical_responses() {
    let mut c = Conn::new(String::from("content"), true);
    let mut heads: Vec<String> = Vec::new();
    for _ in 0..2 {
        expect_read_line(c.step(line("GET / HTTP/1.1\r\n")));
        c.step(line("\r\n"));
        c.step(ConnEvent::Probe(true));
        let (head, body) = expect_write(c.step(ConnEvent::Opened(OpenOutcome::Opened(42))));
        assert!(matches!(body, BodySource::OpenedFile));
        heads.push(head);
        expect_read_line(c.step(ConnEvent::Written(true)));
    }
    assert_eq!(heads[0], heads[1]);
}

#[test]
fn blank_where_a_request_starts_closes_cleanly() {
    let mut c = Conn::new(String::from("content"), true);
    let a = c.step(line(""));
    assert!(matches!(a, ConnAction::Close(CloseReason::CleanEof)));
}

#[test]
fn malformed_request_line_closes_without_response() {
    let mut c = Conn::new(String::from("content"), true);
    let a = c.step(line("GARBAGE\r\n"));
    assert!(matches!(
        a,
        ConnAction::Close(CloseReason::ParseFailed(ParseError::MissingPath))
    ));
}

#[test]
fn malformed_header_line_closes_without_response() {
    let mut c = Conn::new(String::from("content"), true);
    expect_read_line(c.step(line("GET / HTTP/1.1\r\n")));
    let a = c.step(line("no colon\r\n"));
    assert!(matches!(
        a,
        ConnAction::Close(CloseReason::ParseFailed(ParseError::MissingHeaderColon))
    ));
}

#[test]
fn failed_write_closes_the_connection() {
    let mut c = Conn::new(String::from("content"), false);
    expect_read_line(c.step(line("GET /x HTTP/1.1\r\n")));
    c.step(line("\r\n"));
    c.step(ConnEvent::Opened(OpenOutcome::NotFound));
    let a = c.step(ConnEvent::Written(false));
    assert!(matches!(a, ConnAction::Close(CloseReason::TransportFailed)));
}

#[test]
fn file_without_known_extension_has_no_content_type() {
    let mut c = Conn::new(String::from("content"), false);
    expect_read_line(c.step(line("GET /data.bin HTTP/1.1\r\n")));
    let a = c.step(line("\r\n"));
    match a {
        ConnAction::OpenFile(p) => assert_eq!(p, "content/data.bin"),
        other => panic!("expected an open, got {:?}", dbg_name(&other)),
    }
    let (head, _) = expect_write(c.step(ConnEvent::Opened(OpenOutcome::Opened(7))));
    assert_eq!(head, "HTTP/1.1 200 OK\r\nContent-Length: 7\r\n\r\n");
}
