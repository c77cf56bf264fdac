//! HTTP request-line parsing and response building.
use vstd::prelude::*;
use vstd::utf8::encode_utf8;
use crate::text::{all_digits, chars_of, decimal, decimal_value, law_decimal_round_trip, push_decimal, string_of_range};

verus! {

/// `std::io::Error`, carried unopened in `ParseError::Io`.
#[verifier::external_type_specification]
#[verifier::external_body]
pub struct ExIoError(std::io::Error);

/// A parsed request line.
#[derive(Debug)]
pub struct Request {
    pub method: String,
    pub path: String,
}

impl Request {
    /// A request for `path` with `method`.
    pub fn new(method: &str, path: &str) -> (r: Self)
        ensures
            r.method@ == method@,
            r.path@ == path@,
    {
        Request { method: method.to_owned(), path: path.to_owned() }
    }
}

/// Why no request could be read.
#[derive(Debug)]
pub enum ParseError {
    Io(std::io::Error),
    BadRequestLine,
    Eof,
}

/// The text of an I/O error.
///
/// Formats the error with its `Display` impl; nothing is stated of the text.
#[verifier::external_body]
fn io_error_text(e: &std::io::Error) -> String {
    format!("{e}")
}

impl ParseError {
    /// A human-readable description of the error.
    pub fn describe(&self) -> (r: String)
        ensures
            self is BadRequestLine ==> r@ == "malformed request line"@,
            self is Eof ==> r@ == "connection closed before request"@,
            self is Io ==> exists|t: Seq<char>| r@ == "I/O error: "@ + t,
    {
        match self {
            ParseError::Io(e) => {
                let mut r = String::new();
                r.append("I/O error: ");
                let t = io_error_text(e);
                r.append(t.as_str());
                assert(r@ == "I/O error: "@ + t@);
                r
            },
            ParseError::BadRequestLine => {
                let mut r = String::new();
                r.append("malformed request line");
                r
            },
            ParseError::Eof => {
                let mut r = String::new();
                r.append("connection closed before request");
                r
            },
        }
    }
}

/// The reason phrase of a status code.
pub open spec fn status_reason(code: u16) -> Seq<char> {
    if code == 200 {
        "OK"@
    } else if code == 301 {
        "Moved Permanently"@
    } else if code == 403 {
        "Forbidden"@
    } else if code == 404 {
        "Not Found"@
    } else if code == 405 {
        "Method Not Allowed"@
    } else if code == 413 {
        "Content Too Large"@
    } else {
        "Unknown Status"@
    }
}

/// Maps a status code to its reason phrase.
pub fn response_name(code: u16) -> (r: &'static str)
    ensures
        r@ == status_reason(code),
{
    match code {
        200 => "OK",
        301 => "Moved Permanently",
        403 => "Forbidden",
        404 => "Not Found",
        405 => "Method Not Allowed",
        413 => "Content Too Large",
        _ => "Unknown Status",
    }
}

/// The HTML page that reports a status code.
pub open spec fn status_page(code: u16) -> Seq<char> {
    let head = decimal(code as nat) + " "@ + status_reason(code);
    "<html><head><title>"@ + head + "</title></head><body><h1>"@ + head + "</h1></body></html>"@
}

/// The HTML body that reports a status code.
pub fn make_body(code: u16) -> (r: Vec<u8>)
    ensures
        r@ == encode_utf8(status_page(code)),
{
    let name = response_name(code);
    let mut s = String::new();
    s.append("<html><head><title>");
    push_decimal(&mut s, code as u64);
    s.append(" ");
    s.append(name);
    s.append("</title></head><body><h1>");
    push_decimal(&mut s, code as u64);
    s.append(" ");
    s.append(name);
    s.append("</h1></body></html>");
    assert(s@ =~= status_page(code));
    s.as_str().as_bytes_vec()
}

/// A response ready to be serialised.
pub struct Response {
    pub status: u16,
    pub reason: &'static str,
    pub content_type: &'static str,
    pub cache_max_age: u64,
    pub body: Vec<u8>,
    pub location: Option<String>,
}

/// The page that points a client at `location`.
pub open spec fn redirect_page(location: Seq<char>) -> Seq<char> {
    "<html><head><title>301 Moved Permanently</title></head><body><h1>301 Moved Permanently</h1><p>Redirecting to <a href=\""@
        + location + "\">"@ + location + "</a></p></body></html>"@
}

/// The `Cache-Control` header line for a max-age (zero disables caching).
pub open spec fn cache_line(max_age: u64) -> Seq<char> {
    if max_age > 0 {
        "Cache-Control: max-age="@ + decimal(max_age as nat) + "\r\n"@
    } else {
        "Cache-Control: no-store\r\n"@
    }
}

/// The `Location` header line, if there is a location.
pub open spec fn location_line(location: Option<Seq<char>>) -> Seq<char> {
    match location {
        Some(url) => "Location: "@ + url + "\r\n"@,
        None => Seq::empty(),
    }
}

/// The status line and headers of a response, up to and including the blank
/// line that ends them.
pub open spec fn header_text(
    status: u16,
    reason: Seq<char>,
    content_type: Seq<char>,
    content_length: nat,
    max_age: u64,
    location: Option<Seq<char>>,
) -> Seq<char> {
    "HTTP/1.1 "@ + decimal(status as nat) + " "@ + reason + "\r\nContent-Type: "@ + content_type
        + "; charset=utf-8\r\nContent-Length: "@ + decimal(content_length) + "\r\n"@
        + cache_line(max_age) + location_line(location) + "Connection: close\r\n\r\n"@
}

/// The location of a response as a mathematical value.
pub open spec fn location_of(location: Option<String>) -> Option<Seq<char>> {
    match location {
        Some(s) => Some(s@),
        None => None,
    }
}

/// The bytes of a response on the wire.
pub open spec fn wire_bytes(r: Response) -> Seq<u8> {
    encode_utf8(header_text(r.status, r.reason@, r.content_type@, r.body@.len(), r.cache_max_age,
        location_of(r.location))) + r.body@
}

/// The response of a status page: its reason phrase and the page that reports
/// the status, as HTML, never cached.
pub open spec fn is_status_response(r: Response, status: u16) -> bool {
    &&& r.status == status
    &&& r.reason@ == status_reason(status)
    &&& r.content_type@ == "text/html"@
    &&& r.cache_max_age == 0
    &&& r.body@ == encode_utf8(status_page(status))
    &&& r.location is None
}

impl Response {
    /// A `200 OK` response carrying `body`.
    pub fn ok(body: Vec<u8>, content_type: &'static str, cache_max_age: u64) -> (r: Self)
        ensures
            r.status == 200,
            r.reason@ == status_reason(200),
            r.content_type == content_type,
            r.cache_max_age == cache_max_age,
            r.body == body,
            r.location is None,
    {
        Response { status: 200, reason: "OK", content_type, cache_max_age, body, location: None }
    }

    /// A `301 Moved Permanently` response pointing at `location`.
    pub fn redirect(location: &str) -> (r: Self)
        ensures
            r.status == 301,
            r.reason@ == status_reason(301),
            r.content_type@ == "text/html"@,
            r.cache_max_age == 0,
            r.body@ == encode_utf8(redirect_page(location@)),
            r.location matches Some(l) && l@ == location@,
    {
        let mut s = String::new();
        s.append("<html><head><title>301 Moved Permanently</title></head><body><h1>301 Moved Permanently</h1><p>Redirecting to <a href=\"");
        s.append(location);
        s.append("\">");
        s.append(location);
        s.append("</a></p></body></html>");
        assert(s@ =~= redirect_page(location@));
        let body = s.as_str().as_bytes_vec();
        Response {
            status: 301,
            reason: "Moved Permanently",
            content_type: "text/html",
            cache_max_age: 0,
            body,
            location: Some(location.to_owned()),
        }
    }

    /// `404 Not Found`.
    pub fn not_found() -> (r: Self)
        ensures
            is_status_response(r, 404),
    {
        let status: u16 = 404;
        Response {
            status,
            reason: "Not Found",
            content_type: "text/html",
            cache_max_age: 0,
            body: make_body(status),
            location: None,
        }
    }

    /// `403 Forbidden`.
    pub fn forbidden() -> (r: Self)
        ensures
            is_status_response(r, 403),
    {
        let status: u16 = 403;
        Response {
            status,
            reason: "Forbidden",
            content_type: "text/html",
            cache_max_age: 0,
            body: make_body(status),
            location: None,
        }
    }

    /// `405 Method Not Allowed`.
    pub fn method_not_allowed() -> (r: Self)
        ensures
            is_status_response(r, 405),
    {
        let status: u16 = 405;
        Response {
            status,
            reason: "Method Not Allowed",
            content_type: "text/html",
            cache_max_age: 0,
            body: make_body(status),
            location: None,
        }
    }

    /// `413 Content Too Large`.
    pub fn too_large() -> (r: Self)
        ensures
            is_status_response(r, 413),
    {
        let status: u16 = 413;
        Response {
            status,
            reason: "Content Too Large",
            content_type: "text/html",
            cache_max_age: 0,
            body: make_body(status),
            location: None,
        }
    }

    /// Serialises the response: status line, headers, a blank line, then the
    /// body.
    pub fn into_bytes(self) -> (r: Vec<u8>)
        ensures
            r@ == wire_bytes(self),
    {
        let mut h = String::new();
        h.append("HTTP/1.1 ");
        push_decimal(&mut h, self.status as u64);
        h.append(" ");
        h.append(self.reason);
        h.append("\r\nContent-Type: ");
        h.append(self.content_type);
        h.append("; charset=utf-8\r\nContent-Length: ");
        push_decimal(&mut h, self.body.len() as u64);
        h.append("\r\n");
        let ghost before_cache = h@;
        if self.cache_max_age > 0 {
            h.append("Cache-Control: max-age=");
            push_decimal(&mut h, self.cache_max_age);
            h.append("\r\n");
        } else {
            h.append("Cache-Control: no-store\r\n");
        }
        assert(h@ =~= before_cache + cache_line(self.cache_max_age));
        let ghost before_location = h@;
        match &self.location {
            Some(url) => {
                h.append("Location: ");
                h.append(url.as_str());
                h.append("\r\n");
            },
            None => {},
        }
        assert(h@ =~= before_location + location_line(location_of(self.location)));
        h.append("Connection: close\r\n\r\n");
        assert(h@ =~= header_text(self.status, self.reason@, self.content_type@, self.body@.len(),
            self.cache_max_age, location_of(self.location)));
        let mut buf = h.as_str().as_bytes_vec();
        buf.extend_from_slice(self.body.as_slice());
        buf
    }
}

/// Whether `c` is white space in Unicode's sense, the set that
/// `char::is_whitespace` accepts.
pub open spec fn is_white(c: char) -> bool {
    let u = c as u32;
    ||| 0x09 <= u <= 0x0D
    ||| u == 0x20
    ||| u == 0x85
    ||| u == 0xA0
    ||| u == 0x1680
    ||| 0x2000 <= u <= 0x200A
    ||| u == 0x2028
    ||| u == 0x2029
    ||| u == 0x202F
    ||| u == 0x205F
    ||| u == 0x3000
}

/// Whether a character is white space.
pub fn is_whitespace(c: char) -> (r: bool)
    ensures
        r == is_white(c),
{
    let u = c as u32;
    (0x09 <= u && u <= 0x0D) || u == 0x20 || u == 0x85 || u == 0xA0 || u == 0x1680
        || (0x2000 <= u && u <= 0x200A) || u == 0x2028 || u == 0x2029 || u == 0x202F
        || u == 0x205F || u == 0x3000
}

/// The first index from `i` on that is not white space (or the end).
pub open spec fn skip_white(s: Seq<char>, i: int) -> int
    decreases s.len() - i,
{
    if 0 <= i < s.len() && is_white(s[i]) {
        skip_white(s, i + 1)
    } else {
        i
    }
}

/// The first index from `i` on that is white space (or the end).
pub open spec fn skip_word(s: Seq<char>, i: int) -> int
    decreases s.len() - i,
{
    if 0 <= i < s.len() && !is_white(s[i]) {
        skip_word(s, i + 1)
    } else {
        i
    }
}

/// The first two white-space-separated words of `s`, if it has two.
pub open spec fn first_two_words(s: Seq<char>) -> Option<(Seq<char>, Seq<char>)> {
    let a = skip_white(s, 0);
    let b = skip_word(s, a);
    let c = skip_white(s, b);
    let d = skip_word(s, c);
    if a < s.len() && c < s.len() {
        Some((s.subrange(a, b), s.subrange(c, d)))
    } else {
        None
    }
}

proof fn lemma_skip_bounds(s: Seq<char>, i: int)
    requires
        0 <= i <= s.len(),
    ensures
        i <= skip_white(s, i) <= s.len(),
        i <= skip_word(s, i) <= s.len(),
    decreases s.len() - i,
{
    if i < s.len() {
        lemma_skip_bounds(s, i + 1);
    }
}

fn skip_white_from(v: &Vec<char>, start: usize) -> (r: usize)
    requires
        start <= v@.len(),
    ensures
        r == skip_white(v@, start as int),
{
    let mut i = start;
    while i < v.len() && is_whitespace(v[i])
        invariant
            start <= i <= v@.len(),
            skip_white(v@, i as int) == skip_white(v@, start as int),
        decreases v@.len() - i,
    {
        i += 1;
    }
    i
}

fn skip_word_from(v: &Vec<char>, start: usize) -> (r: usize)
    requires
        start <= v@.len(),
    ensures
        r == skip_word(v@, start as int),
{
    let mut i = start;
    while i < v.len() && !is_whitespace(v[i])
        invariant
            start <= i <= v@.len(),
            skip_word(v@, i as int) == skip_word(v@, start as int),
        decreases v@.len() - i,
    {
        i += 1;
    }
    i
}

/// Parses a request line such as `GET /index.html HTTP/1.1`: an empty line
/// means the client closed the connection; otherwise the method and the path
/// are its first two words, and a line with fewer is malformed.
pub fn parse_request_line(line: &str) -> (r: Result<Request, ParseError>)
    ensures
        line@.len() == 0 ==> r matches Err(ParseError::Eof),
        line@.len() > 0 ==> match first_two_words(line@) {
            Some((m, p)) => r matches Ok(req) && req.method@ == m && req.path@ == p,
            None => r matches Err(ParseError::BadRequestLine),
        },
{
    let v = chars_of(line);
    if v.len() == 0 {
        return Err(ParseError::Eof);
    }
    let a = skip_white_from(&v, 0);
    proof { lemma_skip_bounds(v@, 0); }
    let b = skip_word_from(&v, a);
    proof { lemma_skip_bounds(v@, a as int); }
    let c = skip_white_from(&v, b);
    proof { lemma_skip_bounds(v@, b as int); }
    let d = skip_word_from(&v, c);
    proof { lemma_skip_bounds(v@, c as int); }
    if a < v.len() && c < v.len() {
        Ok(Request { method: string_of_range(&v, a, b), path: string_of_range(&v, c, d) })
    } else {
        Err(ParseError::BadRequestLine)
    }
}

/// Whether a header line is the blank line (or end of input) that ends the
/// headers.
pub fn is_header_end(line: &str) -> (r: bool)
    ensures
        r == (line@.len() == 0 || line@ == seq!['\n'] || line@ == seq!['\r', '\n']),
{
    let v = chars_of(line);
    let n = v.len();
    if n == 0 {
        true
    } else if n == 1 {
        if v[0] == '\n' {
            assert(v@ =~= seq!['\n']);
            true
        } else {
            assert(v@[0] != seq!['\n'][0]);
            false
        }
    } else if n == 2 {
        if v[0] == '\r' && v[1] == '\n' {
            assert(v@ =~= seq!['\r', '\n']);
            true
        } else {
            assert(v@[0] != seq!['\r', '\n'][0] || v@[1] != seq!['\r', '\n'][1]);
            false
        }
    } else {
        false
    }
}

/// A response goes on the wire as its header followed by its body: the body
/// is exactly the last `Content-Length` bytes, and the `Content-Length` field
/// reads back as the body's length.
pub proof fn law_wire_carries_body(r: Response)
    ensures
        wire_bytes(r).len() >= r.body@.len(),
        wire_bytes(r).subrange(wire_bytes(r).len() - r.body@.len(), wire_bytes(r).len() as int) == r.body@,
        decimal_value(decimal(r.body@.len())) == r.body@.len(),
{
    let w = wire_bytes(r);
    let h = encode_utf8(header_text(r.status, r.reason@, r.content_type@, r.body@.len(), r.cache_max_age,
        location_of(r.location)));
    assert(w.subrange(h.len() as int, w.len() as int) =~= r.body@);
    law_decimal_round_trip(r.body@.len());
}

/// The header of every response has a `Content-Length` line whose digits
/// read back as the length of the body that follows the header.
pub proof fn law_content_length_field(r: Response)
    ensures
        exists|before: Seq<char>, digits: Seq<char>, after: Seq<char>|
            {
                &&& wire_bytes(r) == encode_utf8(
                    before + "\r\nContent-Length: "@ + digits + "\r\n"@ + after,
                ) + r.body@
                &&& digits.len() > 0
                &&& all_digits(digits)
                &&& decimal_value(digits) == r.body@.len()
            },
{
    reveal_strlit("; charset=utf-8\r\nContent-Length: ");
    reveal_strlit("; charset=utf-8");
    reveal_strlit("\r\nContent-Length: ");
    assert("; charset=utf-8\r\nContent-Length: "@ =~= "; charset=utf-8"@ + "\r\nContent-Length: "@);
    let before = "HTTP/1.1 "@ + decimal(r.status as nat) + " "@ + r.reason@ + "\r\nContent-Type: "@
        + r.content_type@ + "; charset=utf-8"@;
    let digits = decimal(r.body@.len());
    let after = cache_line(r.cache_max_age) + location_line(location_of(r.location))
        + "Connection: close\r\n\r\n"@;
    law_decimal_round_trip(r.body@.len());
    assert(header_text(r.status, r.reason@, r.content_type@, r.body@.len(), r.cache_max_age,
        location_of(r.location)) =~= before + "\r\nContent-Length: "@ + digits + "\r\n"@ + after);
}

/// No printable ASCII character other than the space is white space, and
/// the space is.
pub proof fn law_printable_ascii_is_not_white(c: char)
    ensures
        0x21 <= (c as u32) <= 0x7E ==> !is_white(c),
        c == ' ' ==> is_white(c),
{
}

proof fn lemma_skip_word_to(s: Seq<char>, i: int, j: int)
    requires
        0 <= i <= j <= s.len(),
        forall|k: int| i <= k < j ==> !is_white(#[trigger] s[k]),
        j == s.len() || is_white(s[j]),
    ensures
        skip_word(s, i) == j,
    decreases j - i,
{
    if i < j {
        lemma_skip_word_to(s, i + 1, j);
    }
}

proof fn lemma_skip_white_to(s: Seq<char>, i: int, j: int)
    requires
        0 <= i <= j <= s.len(),
        forall|k: int| i <= k < j ==> is_white(#[trigger] s[k]),
        j == s.len() || !is_white(s[j]),
    ensures
        skip_white(s, i) == j,
    decreases j - i,
{
    if i < j {
        lemma_skip_white_to(s, i + 1, j);
    }
}

/// Whether `w` is a non-empty word of printable ASCII characters other than
/// the space.
pub open spec fn printable_word(w: Seq<char>) -> bool {
    w.len() > 0 && forall|k: int| 0 <= k < w.len() ==> 0x21 <= (#[trigger] w[k] as u32) <= 0x7E
}

/// A request line made of a method and a path of printable ASCII, separated
/// by one space and followed by anything that starts with white space (or
/// nothing), reads as that method and that path, whole.
pub proof fn law_request_line_words(method: Seq<char>, path: Seq<char>, rest: Seq<char>)
    requires
        printable_word(method),
        printable_word(path),
        rest.len() == 0 || is_white(rest[0]),
    ensures
        first_two_words(method + seq![' '] + path + rest) == Some((method, path)),
{
    let s = method + seq![' '] + path + rest;
    let m = method.len() as int;
    let p = path.len() as int;
    assert(s[0] == method[0]);
    assert forall|k: int| 0 <= k < m implies !is_white(#[trigger] s[k]) by {
        assert(s[k] == method[k]);
    }
    assert(s[m] == ' ');
    assert forall|k: int| m + 1 <= k < m + 1 + p implies !is_white(#[trigger] s[k]) by {
        assert(s[k] == path[k - m - 1]);
    }
    if rest.len() > 0 {
        assert(s[m + 1 + p] == rest[0]);
    }
    lemma_skip_white_to(s, 0, 0);
    lemma_skip_word_to(s, 0, m);
    lemma_skip_white_to(s, m, m + 1);
    lemma_skip_word_to(s, m + 1, m + 1 + p);
    assert(s.subrange(0, m) =~= method);
    assert(s.subrange(m + 1, m + 1 + p) =~= path);
}

} // verus!
