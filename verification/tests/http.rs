use http_server::http::{
    is_header_end, is_whitespace, make_body, parse_request_line, response_name, ParseError,
    Request, Response,
};

#[test]
fn response_names_of_known_codes() {
    assert_eq!(response_name(200), "OK");
    assert_eq!(response_name(301), "Moved Permanently");
    assert_eq!(response_name(403), "Forbidden");
    assert_eq!(response_name(404), "Not Found");
    assert_eq!(response_name(405), "Method Not Allowed");
    assert_eq!(response_name(413), "Content Too Large");
    assert_eq!(response_name(500), "Unknown Status");
    assert_eq!(response_name(0), "Unknown Status");
}

#[test]
fn make_body_reports_status() {
    assert_eq!(
        make_body(404),
        b"<html><head><title>404 Not Found</title></head><body><h1>404 Not Found</h1></body></html>".to_vec()
    );
    assert_eq!(
        make_body(7),
        b"<html><head><title>7 Unknown Status</title></head><body><h1>7 Unknown Status</h1></body></html>".to_vec()
    );
}

#[test]
fn request_new_copies_fields() {
    let r = Request::new("GET", "/a b");
    assert_eq!(r.method, "GET");
    assert_eq!(r.path, "/a b");
}

#[test]
fn ok_response_fields() {
    let r = Response::ok(vec![1, 2, 3], "image/png", 60);
    assert_eq!(r.status, 200);
    assert_eq!(r.reason, "OK");
    assert_eq!(r.content_type, "image/png");
    assert_eq!(r.cache_max_age, 60);
    assert_eq!(r.body, vec![1, 2, 3]);
    assert!(r.location.is_none());
}

#[test]
fn status_responses_carry_their_page() {
    let cases = [
        (Response::not_found(), 404, "Not Found"),
        (Response::forbidden(), 403, "Forbidden"),
        (Response::method_not_allowed(), 405, "Method Not Allowed"),
        (Response::too_large(), 413, "Content Too Large"),
    ];
    for (r, status, reason) in cases {
        assert_eq!(r.status, status);
        assert_eq!(r.reason, reason);
        assert_eq!(r.reason, response_name(r.status));
        assert_eq!(r.content_type, "text/html");
        assert_eq!(r.cache_max_age, 0);
        assert_eq!(r.body, make_body(status));
        assert!(r.location.is_none());
    }
}

#[test]
fn redirect_response() {
    let r = Response::redirect("https://example.com/x");
    assert_eq!(r.status, 301);
    assert_eq!(r.reason, "Moved Permanently");
    assert_eq!(r.content_type, "text/html");
    assert_eq!(r.cache_max_age, 0);
    assert_eq!(r.location.as_deref(), Some("https://example.com/x"));
    assert_eq!(
        String::from_utf8(r.body).unwrap(),
        "<html><head><title>301 Moved Permanently</title></head><body><h1>301 Moved Permanently</h1><p>Redirecting to <a href=\"https://example.com/x\">https://example.com/x</a></p></body></html>"
    );
}

#[test]
fn into_bytes_without_cache() {
    let r = Response::ok(b"hello".to_vec(), "text/plain", 0);
    assert_eq!(
        String::from_utf8(r.into_bytes()).unwrap(),
        "HTTP/1.1 200 OK\r\nContent-Type: text/plain; charset=utf-8\r\nContent-Length: 5\r\nCache-Control: no-store\r\nConnection: close\r\n\r\nhello"
    );
}

#[test]
fn into_bytes_with_cache_and_location() {
    let mut r = Response::redirect("/new/");
    r.cache_max_age = 3600;
    let body_len = r.body.len();
    let body = r.body.clone();
    let bytes = r.into_bytes();
    let head = format!(
        "HTTP/1.1 301 Moved Permanently\r\nContent-Type: text/html; charset=utf-8\r\nContent-Length: {body_len}\r\nCache-Control: max-age=3600\r\nLocation: /new/\r\nConnection: close\r\n\r\n"
    );
    assert_eq!(&bytes[..head.len()], head.as_bytes());
    assert_eq!(&bytes[head.len()..], &body[..]);
}

#[test]
fn into_bytes_keeps_binary_body() {
    let r = Response::ok(vec![0, 159, 255], "application/octet-stream", 1);
    let bytes = r.into_bytes();
    assert!(bytes.ends_with(&[0, 159, 255]));
    let text = String::from_utf8_lossy(&bytes);
    assert!(text.contains("Content-Length: 3\r\n"));
    assert!(text.contains("Cache-Control: max-age=1\r\n"));
}

#[test]
fn parse_request_line_reads_method_and_path() {
    let r = parse_request_line("GET /index.html HTTP/1.1\r\n").unwrap();
    assert_eq!(r.method, "GET");
    assert_eq!(r.path, "/index.html");
    let r = parse_request_line("  HEAD\t/a\u{3000}b ").unwrap();
    assert_eq!(r.method, "HEAD");
    assert_eq!(r.path, "/a");
    let r = parse_request_line("POST /form").unwrap();
    assert_eq!(r.method, "POST");
    assert_eq!(r.path, "/form");
}

#[test]
fn parse_request_line_errors() {
    assert!(matches!(parse_request_line(""), Err(ParseError::Eof)));
    assert!(matches!(parse_request_line("GET\r\n"), Err(ParseError::BadRequestLine)));
    assert!(matches!(parse_request_line("\r\n"), Err(ParseError::BadRequestLine)));
    assert!(matches!(parse_request_line("   "), Err(ParseError::BadRequestLine)));
}

#[test]
fn whitespace_set() {
    for c in ['\t', '\n', '\u{b}', '\u{c}', '\r', ' ', '\u{85}', '\u{a0}', '\u{1680}', '\u{2000}', '\u{200a}', '\u{2028}', '\u{2029}', '\u{202f}', '\u{205f}', '\u{3000}'] {
        assert!(is_whitespace(c), "{c:?}");
        assert!(c.is_whitespace());
    }
    for c in ['a', '/', '\u{200b}', '\u{180e}', '\0'] {
        assert!(!is_whitespace(c), "{c:?}");
        assert!(!c.is_whitespace());
    }
}

#[test]
fn header_end_lines() {
    assert!(is_header_end(""));
    assert!(is_header_end("\n"));
    assert!(is_header_end("\r\n"));
    assert!(!is_header_end("Host: x\r\n"));
    assert!(!is_header_end(" \r\n"));
    assert!(!is_header_end("\r"));
}

#[test]
fn parse_error_descriptions() {
    assert_eq!(ParseError::BadRequestLine.describe(), "malformed request line");
    assert_eq!(ParseError::Eof.describe(), "connection closed before request");
    let e = ParseError::Io(std::io::Error::new(std::io::ErrorKind::Other, "boom"));
    assert_eq!(e.describe(), "I/O error: boom");
}
