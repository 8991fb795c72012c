use tinyhttpd::readers::{ContentLength, NoOp, Text};
use tinyhttpd::response::ResponseBuilder;
use tinyhttpd::status::StatusCode;

#[test]
fn status_codes_and_reasons() {
    assert_eq!(StatusCode::Okay.code(), 200);
    assert_eq!(StatusCode::Okay.reason(), "OK");
    assert_eq!(StatusCode::NotFound.code(), 404);
    assert_eq!(StatusCode::NotFound.reason(), "Not Found");
    assert_eq!(StatusCode::MethodNotAllowed.code(), 405);
    assert_eq!(StatusCode::MethodNotAllowed.reason(), "Method Not Allowed");
    assert_eq!(StatusCode::InternalServerError.code(), 500);
    assert_eq!(StatusCode::InternalServerError.reason(), "Internal Server Error");
    assert_eq!(StatusCode::default(), StatusCode::Okay);
}

#[test]
fn head_of_a_fresh_response() {
    let head = ResponseBuilder::new().render_head();
    assert_eq!(head, "HTTP/1.1 200 OK\r\nContent-Length: 0\r\n\r\n");
}

#[test]
fn head_declares_the_reason_phrase_length() {
    let head = ResponseBuilder::new().status_code(StatusCode::NotFound).render_head();
    assert_eq!(head, "HTTP/1.1 404 Not Found\r\nContent-Length: 9\r\n\r\n");
    let head = ResponseBuilder::new().status_code(StatusCode::MethodNotAllowed).render_head();
    assert_eq!(head, "HTTP/1.1 405 Method Not Allowed\r\nContent-Length: 18\r\n\r\n");
}

#[test]
fn head_carries_headers_in_insertion_order() {
    let head = ResponseBuilder::new()
        .add_header("content-type", "text/plain")
        .add_header("x-extra", "1")
        .add_header("X-Extra", "2")
        .body(NoOp, 5)
        .render_head();
    assert_eq!(
        head,
        "HTTP/1.1 200 OK\r\nContent-Type: text/plain\r\nX-Extra: 1\r\nX-Extra: 2\r\nContent-Length: 5\r\n\r\n",
    );
}

#[test]
fn body_with_len_declares_the_body_length() {
    let body = Text::from(String::from("hello"));
    let head = ResponseBuilder::new().body_with_len(body).render_head();
    assert_eq!(head, "HTTP/1.1 200 OK\r\nContent-Length: 5\r\n\r\n");
}

#[test]
fn text_body_produces_its_bytes_in_chunks() {
    let mut t = Text::from(String::from("hello"));
    assert_eq!(t.len(), 5);
    assert_eq!(t.read_chunk(2), b"he".to_vec());
    assert_eq!(t.read_chunk(10), b"llo".to_vec());
    assert_eq!(t.read_chunk(3), Vec::<u8>::new());
    assert_eq!(t.len(), 5);
}

#[test]
fn noop_body_is_empty() {
    let mut n = NoOp;
    assert_eq!(n.len(), 0);
    assert_eq!(n.read_chunk(8), Vec::<u8>::new());
}

#[test]
fn head_renders_large_lengths_exactly() {
    let head = ResponseBuilder::new().body(NoOp, usize::MAX).render_head();
    assert_eq!(
        head,
        format!("HTTP/1.1 200 OK\r\nContent-Length: {}\r\n\r\n", usize::MAX),
    );
    let head = ResponseBuilder::new().body(NoOp, 1_073_741_824).render_head();
    assert_eq!(head, "HTTP/1.1 200 OK\r\nContent-Length: 1073741824\r\n\r\n");
}
