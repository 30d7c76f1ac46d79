use http_server::connection::{Connection, ReadEvent};
use http_server::parser::ParserError;
use http_server::response::{respond, Body, HttpStatusCode};
use http_server::util::HttpMethod;

#[test]
fn one_request_in_one_read() {
    let mut c = Connection::new();
    let r = c.on_read(ReadEvent::Data(b"GET /index.html HTTP/1.1\r\nHost: x\r\n\r\n".to_vec()));
    assert!(r.keep_open);
    assert!(r.error.is_none());
    assert_eq!(r.requests.len(), 1);
    assert_eq!(r.requests[0].target(), "/index.html");
    assert_eq!(r.requests[0].header("host").unwrap(), "x");
}

#[test]
fn request_split_over_reads() {
    let mut c = Connection::new();
    let r = c.on_read(ReadEvent::Data(b"GET /a HT".to_vec()));
    assert!(r.keep_open && r.requests.is_empty());
    let r = c.on_read(ReadEvent::Data(b"TP/1.1\r\nHost: x\r\n\r\n".to_vec()));
    assert!(r.keep_open);
    assert_eq!(r.requests.len(), 1);
    assert_eq!(r.requests[0].target(), "/a");
}

#[test]
fn pipelined_requests_are_all_read() {
    let mut c = Connection::new();
    let r = c.on_read(ReadEvent::Data(
        b"GET /a HTTP/1.1\r\n\r\nPOST /b HTTP/1.1\r\nHost: y\r\n\r\nGET /c".to_vec(),
    ));
    assert!(r.keep_open);
    assert_eq!(r.requests.len(), 2);
    assert_eq!(r.requests[0].target(), "/a");
    assert_eq!(*r.requests[1].method(), HttpMethod::Post);
    assert_eq!(r.requests[1].target(), "/b");
    let r = c.on_read(ReadEvent::Data(b" HTTP/1.1\r\n\r\n".to_vec()));
    assert_eq!(r.requests.len(), 1);
    assert_eq!(r.requests[0].target(), "/c");
}

#[test]
fn invalid_request_closes_after_earlier_ones() {
    let mut c = Connection::new();
    let r = c.on_read(ReadEvent::Data(b"GET /a HTTP/1.1\r\n\r\nPATCH /b".to_vec()));
    assert!(!r.keep_open);
    assert_eq!(r.requests.len(), 1);
    assert!(matches!(r.error, Some(ParserError::InvalidMethod)));
}

#[test]
fn closed_or_failed_read_ends_the_connection() {
    let mut c = Connection::new();
    let r = c.on_read(ReadEvent::Closed);
    assert!(!r.keep_open && r.requests.is_empty() && r.error.is_none());
    let r = c.on_read(ReadEvent::Failed);
    assert!(!r.keep_open && r.requests.is_empty() && r.error.is_none());
}

#[test]
fn get_existing_and_missing_file_end_to_end() {
    let mut c = Connection::new();
    let r = c.on_read(ReadEvent::Data(b"GET /index.html HTTP/1.1\r\nHost: x\r\n\r\n".to_vec()));
    let req = &r.requests[0];
    let (head, body) = respond(*req.method(), req.target(), Some(42));
    assert!(head.send().starts_with("HTTP/1.1 200 \r\n"));
    assert!(matches!(body, Body::File(42)));
    let (head, body) = respond(*req.method(), req.target(), None);
    assert_eq!(head.status(), HttpStatusCode::NotFound);
    assert!(head.send().starts_with("HTTP/1.1 404 \r\n"));
    assert!(matches!(body, Body::Text(ref t) if t == "File not found"));
}

#[test]
fn post_is_not_allowed_end_to_end() {
    let mut c = Connection::new();
    let r = c.on_read(ReadEvent::Data(b"POST /index.html HTTP/1.1\r\nHost: x\r\n\r\n".to_vec()));
    let req = &r.requests[0];
    for file in [Some(42u64), None] {
        let (head, body) = respond(*req.method(), req.target(), file);
        assert!(head.send().starts_with("HTTP/1.1 405 \r\n"));
        assert!(matches!(body, Body::Text(_)));
    }
}
