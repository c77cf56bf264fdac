use http_server::client::{
    choose_action, file_response, from_hex, parent_url, percent_decode, percent_decode_bytes,
    plan_request, request_log_line, Action,
    Found, Plan, ReadFailure,
};
use http_server::http::{make_body, Request, Response};

#[test]
fn hex_digits() {
    assert_eq!(from_hex(b'0'), Some(0));
    assert_eq!(from_hex(b'9'), Some(9));
    assert_eq!(from_hex(b'a'), Some(10));
    assert_eq!(from_hex(b'f'), Some(15));
    assert_eq!(from_hex(b'A'), Some(10));
    assert_eq!(from_hex(b'F'), Some(15));
    assert_eq!(from_hex(b'g'), None);
    assert_eq!(from_hex(b'G'), None);
    assert_eq!(from_hex(b'/'), None);
    assert_eq!(from_hex(b':'), None);
}

#[test]
fn percent_decoding() {
    assert_eq!(percent_decode("/a%20b"), "/a b");
    assert_eq!(percent_decode("/%41%42c"), "/ABc");
    assert_eq!(percent_decode("%e2%82%AC"), "\u{20ac}");
    assert_eq!(percent_decode("%zz"), "%zz");
    assert_eq!(percent_decode("a%4"), "a%4");
    assert_eq!(percent_decode("%41"), "A");
    assert_eq!(percent_decode("%%41"), "%A");
    assert_eq!(percent_decode("%ff"), "\u{fffd}");
    assert_eq!(percent_decode(""), "");
}

#[test]
fn percent_decoding_leaves_plain_text() {
    for s in ["/", "/docs/index.html", "caf\u{e9}/\u{1f600}", "a b?c"] {
        assert_eq!(percent_decode(s), s);
    }
}

#[test]
fn parent_urls() {
    assert_eq!(parent_url("/a/b/"), "/a");
    assert_eq!(parent_url("/a/b"), "/a");
    assert_eq!(parent_url("/a"), "/");
    assert_eq!(parent_url("/a/"), "/");
    assert_eq!(parent_url("/"), "/");
    assert_eq!(parent_url("a"), "/");
    assert_eq!(parent_url(""), "/");
    assert_eq!(parent_url("/a//b"), "/a/");
    assert_eq!(parent_url("/x/y/z///"), "/x/y");
}

#[test]
fn plan_rejects_other_methods() {
    assert!(matches!(plan_request(&Request::new("POST", "/"), "/srv"), Plan::MethodNotAllowed));
    assert!(matches!(plan_request(&Request::new("get", "/"), "/srv"), Plan::MethodNotAllowed));
}

#[test]
fn plan_decodes_and_joins() {
    match plan_request(&Request::new("GET", "/docs/a%20b.txt?x=1"), "/srv") {
        Plan::Resolve { decoded, candidate } => {
            assert_eq!(decoded, "/docs/a b.txt");
            assert_eq!(candidate, "/srv/docs/a b.txt");
        }
        _ => panic!("expected a lookup"),
    }
    match plan_request(&Request::new("HEAD", "///"), "/srv/") {
        Plan::Resolve { decoded, candidate } => {
            assert_eq!(decoded, "///");
            assert_eq!(candidate, "/srv/");
        }
        _ => panic!("expected a lookup"),
    }
    match plan_request(&Request::new("GET", "/%2Fetc"), "root") {
        Plan::Resolve { decoded, candidate } => {
            assert_eq!(decoded, "//etc");
            assert_eq!(candidate, "root/etc");
        }
        _ => panic!("expected a lookup"),
    }
}

#[test]
fn actions_for_directories_and_files() {
    let dir_with_index = Found::Directory { index_is_file: true };
    let dir_without_index = Found::Directory { index_is_file: false };
    assert_eq!(choose_action(&dir_with_index, false, false), Action::ServeIndex);
    assert_eq!(choose_action(&dir_with_index, true, false), Action::ListDirectory);
    assert_eq!(choose_action(&dir_with_index, true, true), Action::Forbidden);
    assert_eq!(choose_action(&dir_without_index, false, false), Action::ListDirectory);
    assert_eq!(choose_action(&dir_without_index, false, true), Action::Forbidden);
    assert_eq!(choose_action(&Found::File, true, true), Action::ServeFile);
    assert_eq!(choose_action(&Found::Missing, false, false), Action::NotFound);
    assert_eq!(choose_action(&Found::OutsideRoot, false, false), Action::Forbidden);
}

#[test]
fn file_responses() {
    let r = file_response(Ok((vec![9, 8], "text/css")), 30);
    assert_eq!(r.status, 200);
    assert_eq!(r.body, vec![9, 8]);
    assert_eq!(r.content_type, "text/css");
    assert_eq!(r.cache_max_age, 30);
    let r = file_response(Err(ReadFailure::PermissionDenied), 30);
    assert_eq!((r.status, r.reason, r.body), (403, "Forbidden", make_body(403)));
    let r = file_response(Err(ReadFailure::OutOfMemory), 30);
    assert_eq!((r.status, r.reason, r.body), (413, "Content Too Large", make_body(413)));
    let r = file_response(Err(ReadFailure::Other), 30);
    assert_eq!((r.status, r.reason, r.cache_max_age), (404, "Not Found", 0));
}

#[test]
fn percent_decoding_bytes() {
    assert_eq!(percent_decode_bytes(b"%41%4a%4A"), b"AJJ".to_vec());
    assert_eq!(percent_decode_bytes(b"%ff%00"), vec![0xff, 0x00]);
    assert_eq!(percent_decode_bytes(b"100%"), b"100%".to_vec());
    assert_eq!(percent_decode_bytes(b"%2"), b"%2".to_vec());
    assert_eq!(percent_decode_bytes(b"%%%41"), b"%%A".to_vec());
    assert_eq!(percent_decode_bytes(b"%g1%1g"), b"%g1%1g".to_vec());
    assert_eq!(percent_decode_bytes(b""), Vec::<u8>::new());
}

#[test]
fn log_lines() {
    let req = Request::new("GET", "/a.txt");
    let resp = Response::ok(vec![1, 2, 3], "text/plain", 0);
    assert_eq!(
        request_log_line("127.0.0.1:5000", &req, &resp),
        "127.0.0.1:5000 \"GET /a.txt\" (200 OK) (3 bytes)."
    );
    let resp = Response::not_found();
    let len = resp.body.len();
    assert_eq!(
        request_log_line("[::1]:80", &Request::new("HEAD", "/x"), &resp),
        format!("[::1]:80 \"HEAD /x\" (404 Not Found) ({len} bytes).")
    );
}

#[test]
fn percent_round_trip_examples() {
    for s in ["/docs/a b.txt", "100%", "%41", "caf\u{e9}/\u{1f600}", "%%"] {
        let lower: String = s.bytes().map(|b| format!("%{b:02x}")).collect();
        let upper: String = s.bytes().map(|b| format!("%{b:02X}")).collect();
        let minimal = s.replace('%', "%25");
        assert_eq!(percent_decode(&lower), s);
        assert_eq!(percent_decode(&upper), s);
        assert_eq!(percent_decode(&minimal), s);
    }
}

#[test]
fn parent_url_laws_on_examples() {
    for p in ["/a/b/c", "/a/b/", "/a", "/", "", "x/y", "/a//b", "/a/b//"] {
        let r = parent_url(p);
        let t = p.trim_end_matches('/');
        assert!(r == "/" || (t.starts_with(&format!("{r}/")) && r.len() < t.len() && !t[r.len() + 1..].contains('/')));
        if p.starts_with('/') {
            assert!(r.starts_with('/'));
        }
        assert_eq!(parent_url(&format!("{p}/")), r);
    }
}
