use http_server::response::{
    content_type, decimal_string, respond, Body, HttpResponse, HttpStatusCode,
    BAD_REQUEST_RESPONSE, METHOD_NOT_ALLOWED_BODY, NOT_FOUND_BODY,
};
use http_server::util::HttpMethod;

#[test]
fn status_codes() {
    assert_eq!(HttpStatusCode::OK.code(), 200);
    assert_eq!(HttpStatusCode::NotFound.code(), 404);
    assert_eq!(HttpStatusCode::MethodNotAllowed.code(), 405);
    assert_eq!(HttpStatusCode::Continue.code(), 100);
    assert_eq!(HttpStatusCode::InternalServerError.code(), 500);
}

#[test]
fn decimal_numerals() {
    assert_eq!(decimal_string(0), "0");
    assert_eq!(decimal_string(7), "7");
    assert_eq!(decimal_string(10), "10");
    assert_eq!(decimal_string(4096), "4096");
    assert_eq!(decimal_string(u64::MAX), "18446744073709551615");
}

#[test]
fn head_of_an_empty_response() {
    assert_eq!(HttpResponse::ok().send(), "HTTP/1.1 200 \r\n\r\n");
    assert_eq!(HttpResponse::not_found().send(), "HTTP/1.1 404 \r\n\r\n");
    assert_eq!(HttpResponse::new(HttpStatusCode::NoContent).send(), "HTTP/1.1 204 \r\n\r\n");
}

#[test]
fn head_with_header_fields() {
    let mut r = HttpResponse::ok();
    r.set_header("Content-Length", "5");
    r.set_header("Server", "s");
    r.set_header("Content-Length", "6");
    assert_eq!(r.status(), HttpStatusCode::OK);
    assert_eq!(r.send(), "HTTP/1.1 200 \r\nContent-Length: 6\r\nServer: s\r\n\r\n");
}

#[test]
fn content_types_by_extension() {
    assert_eq!(content_type("/index.html"), "text/html");
    assert_eq!(content_type("/app.js"), "text/javascript");
    assert_eq!(content_type("/style.css"), "text/css");
    assert_eq!(content_type("/a.jpg"), "image/jpeg");
    assert_eq!(content_type("/a.jpeg"), "image/jpeg");
    assert_eq!(content_type("/a.png"), "image/png");
    assert_eq!(content_type("/archive.tar"), "application/octet-stream");
    assert_eq!(content_type("html"), "application/octet-stream");
    assert_eq!(content_type(""), "application/octet-stream");
}

#[test]
fn existing_file_is_served() {
    let (head, body) = respond(HttpMethod::Get, "/index.html", Some(1234));
    assert_eq!(head.status(), HttpStatusCode::OK);
    assert!(matches!(body, Body::File(1234)));
    assert_eq!(
        head.send(),
        "HTTP/1.1 200 \r\nContent-Length: 1234\r\nContent-Type: text/html\r\nServer: http_server\r\nConnection: close\r\n\r\n"
    );
}

#[test]
fn missing_file_is_not_found() {
    let (head, body) = respond(HttpMethod::Get, "/nope.html", None);
    assert_eq!(head.status(), HttpStatusCode::NotFound);
    match body {
        Body::Text(t) => assert_eq!(t, "File not found"),
        Body::File(_) => panic!("expected a text body"),
    }
    assert_eq!(
        head.send(),
        "HTTP/1.1 404 \r\nContent-Length: 14\r\nContent-Type: text/plain\r\nServer: http_server\r\nConnection: close\r\n\r\n"
    );
    assert_eq!(NOT_FOUND_BODY, "File not found");
}

#[test]
fn other_methods_are_not_allowed() {
    for file in [Some(10u64), None] {
        let (head, body) = respond(HttpMethod::Post, "/index.html", file);
        assert_eq!(head.status(), HttpStatusCode::MethodNotAllowed);
        match body {
            Body::Text(t) => assert_eq!(t, METHOD_NOT_ALLOWED_BODY),
            Body::File(_) => panic!("expected a text body"),
        }
        assert!(head.send().starts_with("HTTP/1.1 405 \r\n"));
    }
}

#[test]
fn bad_request_literal() {
    assert_eq!(BAD_REQUEST_RESPONSE, "HTTP/1.1 400\r\nConnection: close\r\n\r\n");
}
