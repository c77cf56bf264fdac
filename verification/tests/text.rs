use http_server::http::Response;
use http_server::text::{chars_of, push_decimal, text_equals};

#[test]
fn decimal_digits() {
    for n in [0u64, 7, 10, 99, 100, 65535, u64::MAX] {
        let mut s = String::from("x=");
        push_decimal(&mut s, n);
        assert_eq!(s, format!("x={n}"));
        assert_eq!(s[2..].parse::<u64>().unwrap(), n);
    }
}

#[test]
fn characters_and_equality() {
    assert_eq!(chars_of("a\u{e9}\u{1f600}"), vec!['a', '\u{e9}', '\u{1f600}']);
    assert!(chars_of("").is_empty());
    assert!(text_equals("GET", "GET"));
    assert!(!text_equals("GET", "GETS"));
    assert!(!text_equals("GET", "get"));
    assert!(text_equals("", ""));
}

#[test]
fn content_length_reads_back() {
    for n in [0usize, 1, 9, 10, 1234] {
        let r = Response::ok(vec![b'z'; n], "text/plain", 0);
        let bytes = r.into_bytes();
        let text = String::from_utf8(bytes.clone()).unwrap();
        let field = text.split("Content-Length: ").nth(1).unwrap();
        let len: usize = field.split("\r\n").next().unwrap().parse().unwrap();
        assert_eq!(len, n);
        assert_eq!(&bytes[bytes.len() - n..], &vec![b'z'; n][..]);
        assert!(text.contains("\r\n\r\n"));
    }
}
