use http_server::parser::{Parser, ParserError};
use http_server::util::HttpMethod;

#[test]
fn test_parse_headers_valid() {
    let mut parser = Parser::new();
    let headers = "hello: world\r\nhoware: y ou_doing\r\n\r\n43e6tygse";
    for c in headers.chars() {
        let res = parser.parse_headers(c).expect("shouldn't error");
        if res {
            break;
        }
    }
    assert_eq!(parser.headers().len(), 2);
    assert_eq!(parser.headers().get("hello").unwrap(), "world");
    assert_eq!(parser.headers().get("howare").unwrap(), "y ou_doing");
}

#[test]
#[should_panic(expected = "token expected for header field name")]
fn test_parse_headers_invalid() {
    let mut parser = Parser::new();
    let headers = "in<v:alid\r\n\r\n";
    for c in headers.chars() {
        let res = parser.parse_headers(c).unwrap();
        if res {
            break;
        }
    }
}

const REQUEST: &[u8] = b"GET /index.html?x=1 HTTP/1.1\r\nHost: example\r\nAccept: */*\r\n\r\n";

fn parse_in_chunks(chunks: &[&[u8]]) -> Parser {
    let mut parser = Parser::new();
    let mut done = false;
    for c in chunks {
        done = parser.feed(c).expect("valid request");
    }
    assert!(done);
    parser
}

#[test]
fn whole_request_parses() {
    let parser = parse_in_chunks(&[REQUEST]);
    assert_eq!(parser.version(), (1, 1));
    let req = parser.finish().expect("complete");
    assert_eq!(req.target(), "/index.html?x=1");
    assert_eq!(*req.method(), HttpMethod::Get);
    assert_eq!(req.header("host").unwrap(), "example");
    assert_eq!(req.header("accept").unwrap(), "*/*");
    assert!(req.header("Host").is_none());
}

#[test]
fn chunk_boundaries_do_not_matter() {
    let whole = parse_in_chunks(&[REQUEST]);
    let splits: Vec<Vec<&[u8]>> = vec![
        vec![&REQUEST[..5], &REQUEST[5..]],
        vec![&REQUEST[..1], &REQUEST[1..31], &REQUEST[31..32], &REQUEST[32..]],
        REQUEST.chunks(1).collect(),
        REQUEST.chunks(7).collect(),
    ];
    let whole_req = whole.finish().unwrap();
    for chunks in splits {
        let p = parse_in_chunks(&chunks);
        assert_eq!(p.version(), (1, 1));
        let r = p.finish().unwrap();
        assert_eq!(r.target(), whole_req.target());
        assert_eq!(r.method(), whole_req.method());
        assert_eq!(r.header("host"), whole_req.header("host"));
        assert_eq!(r.header("accept"), whole_req.header("accept"));
    }
}

#[test]
fn partial_request_is_not_done() {
    let mut parser = Parser::new();
    assert!(!parser.feed(&REQUEST[..20]).unwrap());
    assert!(!parser.feed(&[]).unwrap());
}

#[test]
fn feeding_a_done_parser_changes_nothing() {
    let mut parser = Parser::new();
    assert!(parser.feed(REQUEST).unwrap());
    assert!(parser.feed(b"POST /other HTTP/1.0\r\nHost: y\r\n\r\n").unwrap());
    assert!(parser.feed(&[]).unwrap());
    assert_eq!(parser.headers().len(), 2);
    let req = parser.finish().unwrap();
    assert_eq!(req.target(), "/index.html?x=1");
    assert_eq!(*req.method(), HttpMethod::Get);
    assert_eq!(req.header("host").unwrap(), "example");
}

#[test]
fn header_names_are_case_insensitive() {
    let mut a = Parser::new();
    a.feed(b"GET / HTTP/1.1\r\nContent-Type: text/html\r\n\r\n").unwrap();
    let mut b = Parser::new();
    b.feed(b"GET / HTTP/1.1\r\nCONTENT-TYPE: text/html\r\n\r\n").unwrap();
    assert_eq!(a.headers().get("content-type").unwrap(), "text/html");
    assert_eq!(b.headers().get("content-type").unwrap(), "text/html");
}

#[test]
fn header_values_keep_their_case() {
    let mut p = Parser::new();
    p.feed(b"GET / HTTP/1.1\r\nETag: AbC\r\n\r\n").unwrap();
    assert_eq!(p.headers().get("etag").unwrap(), "AbC");
}

#[test]
fn last_header_value_wins() {
    let mut p = Parser::new();
    p.feed(b"GET / HTTP/1.1\r\nX-A: one\r\nx-a: two\r\n\r\n").unwrap();
    assert_eq!(p.headers().len(), 1);
    assert_eq!(p.headers().get("x-a").unwrap(), "two");
}

#[test]
fn unknown_method_is_rejected_at_seven_chars() {
    let mut p = Parser::new();
    assert!(!p.feed(b"PATCH ").unwrap());
    assert!(matches!(p.feed(b"/"), Err(ParserError::InvalidMethod)));
}

#[test]
fn every_known_method_is_recognised() {
    let cases = [
        ("GET", HttpMethod::Get),
        ("PUT", HttpMethod::Put),
        ("HEAD", HttpMethod::Head),
        ("POST", HttpMethod::Post),
        ("TRACE", HttpMethod::Trace),
        ("DELETE", HttpMethod::Delete),
        ("OPTIONS", HttpMethod::Options),
    ];
    for (name, method) in cases {
        let mut p = Parser::new();
        let text = format!("{} /a HTTP/1.0\r\n\r\n", name);
        assert!(p.feed(text.as_bytes()).unwrap());
        assert_eq!(p.version(), (1, 0));
        let req = p.finish().unwrap();
        assert_eq!(*req.method(), method);
        assert_eq!(req.method().as_str(), name);
    }
}

#[test]
fn major_version_other_than_one_is_rejected() {
    let mut p = Parser::new();
    assert!(matches!(p.feed(b"GET / HTTP/2.0\r\n"), Err(ParserError::InvalidVersion)));
}

#[test]
fn version_digits_accumulate_positionally() {
    let mut p = Parser::new();
    assert!(p.feed(b"GET / HTTP/12.34\r\n\r\n").unwrap());
    assert_eq!(p.version(), (12, 34));
}

#[test]
fn version_overflow_is_rejected() {
    let mut p = Parser::new();
    assert!(matches!(p.feed(b"GET / HTTP/1.256\r\n"), Err(ParserError::InvalidVersion)));
}

#[test]
fn finish_before_done_is_not_ready() {
    let mut p = Parser::new();
    p.feed(b"GET / HTTP/1.1\r\n").unwrap();
    assert!(matches!(p.finish(), Err(ParserError::NotReady)));
    assert!(matches!(Parser::new().finish(), Err(ParserError::NotReady)));
}

#[test]
fn missing_space_after_method() {
    let mut p = Parser::new();
    assert!(matches!(p.feed(b"GET/ HTTP/1.1\r\n"), Err(ParserError::ExpectedSpace(_))));
}

#[test]
fn wrong_protocol_literal() {
    let mut p = Parser::new();
    assert!(matches!(p.feed(b"GET / HTTX/1.1\r\n"), Err(ParserError::UnexpectedChar(_))));
}

#[test]
fn non_ascii_byte_is_an_encoding_error() {
    let mut p = Parser::new();
    assert!(matches!(p.feed(&[b'G', 0xC3, 0xA9]), Err(ParserError::InvalidEncoding)));
    let mut p = Parser::new();
    assert!(matches!(p.parse_headers('é'), Err(ParserError::InvalidEncoding)));
}

#[test]
fn invalid_header_name_character() {
    let mut p = Parser::new();
    assert!(matches!(
        p.feed(b"GET / HTTP/1.1\r\nbad name: x\r\n"),
        Err(ParserError::UnexpectedChar(_))
    ));
}

#[test]
fn token_and_field_content_classes() {
    assert!(Parser::is_token(&'a'));
    assert!(Parser::is_token(&'-'));
    assert!(!Parser::is_token(&':'));
    assert!(!Parser::is_token(&' '));
    assert!(!Parser::is_token(&'\t'));
    assert!(!Parser::is_token(&'é'));
    assert!(Parser::is_valid_field_content_char(0x21));
    assert!(Parser::is_valid_field_content_char(0x7E));
    assert!(Parser::is_valid_field_content_char(0x80));
    assert!(!Parser::is_valid_field_content_char(0x20));
    assert!(!Parser::is_valid_field_content_char(0x7F));
}
