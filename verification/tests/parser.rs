use tinyhttpd::request::{
    parse_header_line, parse_request_line, Method, ParseError, RequestParser,
};

#[test]
fn request_line_splits_into_three_tokens() {
    let r = parse_request_line("GET /index.html HTTP/1.1\r\n").unwrap().unwrap();
    assert_eq!(r.0, "HTTP/1.1\r\n");
    assert_eq!(r.1, "/index.html");
    assert!(matches!(r.2, Method::Get));
}

#[test]
fn request_line_method_is_case_insensitive() {
    let r = parse_request_line("get / HTTP/1.1\r\n").unwrap().unwrap();
    assert!(matches!(r.2, Method::Get));
    let r = parse_request_line("DeLeTe / HTTP/1.1\r\n").unwrap().unwrap();
    assert!(matches!(r.2, Method::Delete));
}

#[test]
fn request_line_unknown_method_is_custom() {
    let r = parse_request_line("BREW /pot HTTP/1.1\r\n").unwrap().unwrap();
    match r.2 {
        Method::Custom(tok) => assert_eq!(tok, "BREW"),
        other => panic!("expected a custom method, got {:?}", other),
    }
    let r = parse_request_line("brew /pot HTTP/1.1\r\n").unwrap().unwrap();
    match r.2 {
        Method::Custom(tok) => {
            assert_eq!(tok, "brew");
            assert_eq!(Method::Custom(tok).name(), "BREW");
        },
        other => panic!("expected a custom method, got {:?}", other),
    }
}

#[test]
fn request_line_blank_is_clean_end() {
    assert!(parse_request_line("\r\n").unwrap().is_none());
    assert!(parse_request_line("").unwrap().is_none());
    assert!(parse_request_line("   \r\n").unwrap().is_none());
}

#[test]
fn request_line_missing_tokens_are_errors() {
    assert_eq!(parse_request_line("GET\r\n").unwrap_err(), ParseError::MissingPath);
    assert_eq!(parse_request_line("GET /\r\n").unwrap_err(), ParseError::MissingProto);
}

#[test]
fn header_line_splits_at_first_colon() {
    let (k, v) = parse_header_line("Host: example.test\r\n").unwrap().unwrap();
    assert_eq!(k, "Host");
    assert_eq!(v, "example.test");
    let (k, v) = parse_header_line("x-odd:  a:b \r\n").unwrap().unwrap();
    assert_eq!(k, "x-odd");
    assert_eq!(v, "a:b");
}

#[test]
fn header_line_without_colon_is_an_error() {
    assert_eq!(
        parse_header_line("no colon here\r\n").unwrap_err(),
        ParseError::MissingHeaderColon,
    );
}

#[test]
fn parser_produces_requests_in_sequence() {
    let lines = vec![
        String::from("GET /a.txt HTTP/1.1\r\n"),
        String::from("host: H\r\n"),
        String::from("\r\n"),
        String::from("POST / HTTP/1.1\r\n"),
        String::from("\r\n"),
    ];
    let mut p = RequestParser::new(lines);
    let req = p.parse().unwrap().expect("first request");
    assert!(matches!(req.method, Method::Get));
    assert_eq!(req.path, "/a.txt");
    assert_eq!(req.proto, "HTTP/1.1\r\n");
    assert!(req.body.is_none());
    let v = req.header.get("Host").expect("host header");
    assert_eq!(v[0], "H");
    let req = p.parse().unwrap().expect("second request");
    assert!(matches!(req.method, Method::Post));
    assert!(p.parse().unwrap().is_none());
}

#[test]
fn parser_reports_bad_header_lines() {
    let lines = vec![
        String::from("GET / HTTP/1.1\r\n"),
        String::from("bogus line\r\n"),
    ];
    let mut p = RequestParser::new(lines);
    assert_eq!(p.parse().unwrap_err(), ParseError::MissingHeaderColon);
}

#[test]
fn parse_error_messages() {
    assert_eq!(ParseError::MissingPath.message(), "invalid header: no path");
    assert_eq!(ParseError::MissingProto.message(), "invalid header: no proto");
    assert_eq!(
        ParseError::MissingHeaderColon.message(),
        "invalid header: no key-value pair",
    );
}

#[test]
fn header_line_with_empty_value() {
    let (k, v) = parse_header_line("X-Empty:\r\n").unwrap().unwrap();
    assert_eq!(k, "X-Empty");
    assert_eq!(v, "");
}
