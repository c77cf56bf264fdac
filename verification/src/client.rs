//! Request routing decisions: percent-decoding, URL arithmetic, path
//! confinement, file and directory responses.
use vstd::prelude::*;
use vstd::utf8::{decode_utf8, encode_scalar, encode_utf8, has_width_1_encoding, is_scalar, valid_utf8};
use crate::http::{is_status_response, response_name, status_reason, Request, Response};
use crate::paths::{join_path, joined};
use crate::text::{chars_of, decimal, from_utf8_lossy, push_decimal, push_char, string_of_range, text_equals, utf8_lossy};

verus! {

broadcast use vstd::utf8::group_utf8_lib;

/// The value of an ASCII hexadecimal digit, if `b` is one.
pub open spec fn hex_value(b: u8) -> Option<u8> {
    if 0x30 <= b <= 0x39 {
        Some((b - 0x30) as u8)
    } else if 0x61 <= b <= 0x66 {
        Some((b - 0x61 + 10) as u8)
    } else if 0x41 <= b <= 0x46 {
        Some((b - 0x41 + 10) as u8)
    } else {
        None
    }
}

/// Percent-decoding of a byte sequence: each `%` followed by two hexadecimal
/// digits becomes the byte they spell; every other byte stays as it is.
pub open spec fn percent_decoded(b: Seq<u8>) -> Seq<u8>
    decreases b.len(),
{
    if b.len() == 0 {
        Seq::empty()
    } else if b[0] == 0x25 && b.len() > 2 && hex_value(b[1]) is Some && hex_value(b[2]) is Some {
        seq![(hex_value(b[1]).unwrap() * 16 + hex_value(b[2]).unwrap()) as u8]
            + percent_decoded(b.subrange(3, b.len() as int))
    } else {
        seq![b[0]] + percent_decoded(b.subrange(1, b.len() as int))
    }
}

/// The value of a hexadecimal digit byte.
pub fn from_hex(b: u8) -> (r: Option<u8>)
    ensures
        r == hex_value(b),
{
    if b >= 0x30 && b <= 0x39 {
        Some(b - 0x30)
    } else if b >= 0x61 && b <= 0x66 {
        Some(b - 0x61 + 10)
    } else if b >= 0x41 && b <= 0x46 {
        Some(b - 0x41 + 10)
    } else {
        None
    }
}

/// Percent-decodes a byte sequence.
pub fn percent_decode_bytes(bytes: &[u8]) -> (out: Vec<u8>)
    ensures
        out@ == percent_decoded(bytes@),
{
    let ghost b = bytes@;
    let n = bytes.len();
    let mut out: Vec<u8> = Vec::with_capacity(n);
    let mut i: usize = 0;
    assert(b.subrange(0, n as int) =~= b);
    while i < n
        invariant
            b == bytes@,
            n == b.len(),
            i <= n,
            out@ + percent_decoded(b.subrange(i as int, n as int)) == percent_decoded(b),
        decreases n - i,
    {
        let ghost rest = b.subrange(i as int, n as int);
        if bytes[i] == 0x25 && n - i > 2 {
            let h = from_hex(bytes[i + 1]);
            let l = from_hex(bytes[i + 2]);
            if h.is_some() && l.is_some() {
                let hv = h.unwrap();
                let lv = l.unwrap();
                assert((hv << 4u8) | lv == (hv * 16 + lv) as u8) by (bit_vector)
                    requires
                        hv < 16,
                        lv < 16,
                ;
                assert(rest.subrange(3, rest.len() as int) =~= b.subrange(i + 3, n as int));
                assert(rest[1] == bytes@[i + 1]);
                assert(rest[2] == bytes@[i + 2]);
                let ghost pre = out@;
                out.push((hv << 4u8) | lv);
                assert(out@ + percent_decoded(b.subrange(i + 3, n as int)) =~= pre + percent_decoded(rest));
                i += 3;
                continue;
            }
        }
        assert(rest.subrange(1, rest.len() as int) =~= b.subrange(i + 1, n as int));
        let ghost pre = out@;
        out.push(bytes[i]);
        assert(out@ + percent_decoded(b.subrange(i + 1, n as int)) =~= pre + percent_decoded(rest));
        i += 1;
    }
    assert(b.subrange(n as int, n as int) =~= Seq::<u8>::empty());
    assert(out@ =~= percent_decoded(b));
    out
}

/// Percent-decodes the bytes of `input`, then reads the result as UTF-8,
/// replacing invalid sequences.
pub fn percent_decode(input: &str) -> (out: String)
    ensures
        out@ == utf8_lossy(percent_decoded(encode_utf8(input@))),
        valid_utf8(percent_decoded(encode_utf8(input@))) ==> out@ == decode_utf8(
            percent_decoded(encode_utf8(input@)),
        ),
        !input@.contains('%') ==> out@ == input@,
{
    let out = percent_decode_bytes(input.as_bytes());
    proof {
        if !input@.contains('%') {
            law_percent_decode_plain(input@);
        }
    }
    from_utf8_lossy(out.as_slice())
}

proof fn lemma_decoded_without_percent(b: Seq<u8>)
    requires
        !b.contains(0x25u8),
    ensures
        percent_decoded(b) == b,
    decreases b.len(),
{
    if b.len() > 0 {
        let rest = b.subrange(1, b.len() as int);
        assert forall|k: int| 0 <= k < rest.len() implies rest[k] != 0x25u8 by {
            assert(rest[k] == b[k + 1]);
        }
        assert(b.contains(b[0]));
        lemma_decoded_without_percent(rest);
        assert(seq![b[0]] + rest =~= b);
    }
}

proof fn lemma_scalar_byte_not_percent(c: u32, k: int)
    requires
        is_scalar(c),
        c != 0x25,
        0 <= k < encode_scalar(c).len(),
    ensures
        encode_scalar(c)[k] != 0x25u8,
{
    if has_width_1_encoding(c) {
        assert((c & 0x7F) as u8 != 0x25u8) by (bit_vector)
            requires c <= 0x7F, c != 0x25;
    } else {
        assert(0xC0 | ((c >> 6) & 0x1F) as u8 != 0x25u8) by (bit_vector);
        assert(0xE0 | ((c >> 12) & 0x0F) as u8 != 0x25u8) by (bit_vector);
        assert(0xF0 | ((c >> 18) & 0x7) as u8 != 0x25u8) by (bit_vector);
        assert(0x80 | (c & 0x3F) as u8 != 0x25u8) by (bit_vector);
        assert(0x80 | ((c >> 6) & 0x3F) as u8 != 0x25u8) by (bit_vector);
        assert(0x80 | ((c >> 12) & 0x3F) as u8 != 0x25u8) by (bit_vector);
    }
}

proof fn lemma_encoding_without_percent(s: Seq<char>)
    requires
        !s.contains('%'),
    ensures
        !encode_utf8(s).contains(0x25u8),
    decreases s.len(),
{
    if s.len() > 0 {
        let rest = s.drop_first();
        assert forall|k: int| 0 <= k < rest.len() implies rest[k] != '%' by {
            assert(rest[k] == s[k + 1]);
        }
        lemma_encoding_without_percent(rest);
        let head = encode_scalar(s[0] as u32);
        vstd::utf8::char_is_scalar(s[0]);
        assert(s.contains(s[0]));
        assert((s[0] as u32) != 0x25) by {
            if (s[0] as u32) == 0x25 {
                vstd::utf8::char_u32_cast(s[0], 0x25u32);
                vstd::utf8::char_u32_cast('%', 0x25u32);
            }
        }
        assert forall|k: int| 0 <= k < head.len() implies head[k] != 0x25u8 by {
            lemma_scalar_byte_not_percent(s[0] as u32, k);
        }
        let e = encode_utf8(s);
        assert(e =~= head + encode_utf8(rest));
        assert forall|k: int| 0 <= k < e.len() implies e[k] != 0x25u8 by {
            if k < head.len() {
                assert(e[k] == head[k]);
            } else {
                assert(e[k] == encode_utf8(rest)[k - head.len()]);
            }
        }
    }
}

/// The hexadecimal digit for a value below sixteen, in upper or lower case.
pub open spec fn hex_digit(v: u8, upper: bool) -> u8 {
    if v < 10 {
        (0x30 + v) as u8
    } else if upper {
        (0x41 + v - 10) as u8
    } else {
        (0x61 + v - 10) as u8
    }
}

/// The `%XX` escape of a byte, its hexadecimal digits in the chosen case.
pub open spec fn escaped_byte(x: u8, upper: bool) -> Seq<u8> {
    seq![0x25u8, hex_digit(x / 16, upper), hex_digit(x % 16, upper)]
}

/// Percent-encoding of a byte sequence: every `%`, and every byte that
/// `escape` chooses, becomes its `%XX` escape (in the case that `upper`
/// chooses); the other bytes stay as they are.
pub open spec fn percent_encoded(b: Seq<u8>, escape: Seq<bool>, upper: Seq<bool>) -> Seq<u8>
    decreases b.len(),
{
    if b.len() == 0 {
        Seq::empty()
    } else {
        (if b[0] == 0x25 || escape[0] { escaped_byte(b[0], upper[0]) } else { seq![b[0]] })
            + percent_encoded(b.drop_first(), escape.drop_first(), upper.drop_first())
    }
}

proof fn lemma_hex_digit_value(v: u8, upper: bool)
    requires
        v < 16,
    ensures
        hex_value(hex_digit(v, upper)) == Some(v),
{
}

proof fn lemma_decode_escaped(x: u8, upper: bool, rest: Seq<u8>)
    ensures
        percent_decoded(escaped_byte(x, upper) + rest) == seq![x] + percent_decoded(rest),
{
    let s = escaped_byte(x, upper) + rest;
    lemma_hex_digit_value(x / 16, upper);
    lemma_hex_digit_value(x % 16, upper);
    assert(s[0] == 0x25u8 && s[1] == hex_digit(x / 16, upper) && s[2] == hex_digit(x % 16, upper));
    assert(s.subrange(3, s.len() as int) =~= rest);
    assert((x / 16) * 16 + x % 16 == x);
}

proof fn lemma_decode_plain_byte(y: u8, rest: Seq<u8>)
    requires
        y != 0x25,
    ensures
        percent_decoded(seq![y] + rest) == seq![y] + percent_decoded(rest),
{
    let s = seq![y] + rest;
    assert(s[0] == y);
    assert(s.subrange(1, s.len() as int) =~= rest);
}

/// Percent-decoding undoes percent-encoding, whichever bytes were escaped and
/// in whichever case.
pub proof fn law_percent_round_trip_bytes(b: Seq<u8>, escape: Seq<bool>, upper: Seq<bool>)
    ensures
        percent_decoded(percent_encoded(b, escape, upper)) == b,
    decreases b.len(),
{
    if b.len() > 0 {
        let rest = percent_encoded(b.drop_first(), escape.drop_first(), upper.drop_first());
        law_percent_round_trip_bytes(b.drop_first(), escape.drop_first(), upper.drop_first());
        if b[0] == 0x25 || escape[0] {
            lemma_decode_escaped(b[0], upper[0], rest);
        } else {
            lemma_decode_plain_byte(b[0], rest);
        }
        assert(seq![b[0]] + b.drop_first() =~= b);
    }
}

/// A text whose UTF-8 bytes were percent-encoded decodes back to the text:
/// `percent_decode` of `encoded` gives `original`.
pub proof fn law_percent_round_trip(original: Seq<char>, encoded: Seq<char>, escape: Seq<bool>, upper: Seq<bool>)
    requires
        encode_utf8(encoded) == percent_encoded(encode_utf8(original), escape, upper),
    ensures
        valid_utf8(percent_decoded(encode_utf8(encoded))),
        decode_utf8(percent_decoded(encode_utf8(encoded))) == original,
{
    law_percent_round_trip_bytes(encode_utf8(original), escape, upper);
}

/// Percent-decoding leaves the UTF-8 bytes of a text without `%` unchanged.
pub proof fn law_percent_decode_plain(s: Seq<char>)
    requires
        !s.contains('%'),
    ensures
        percent_decoded(encode_utf8(s)) == encode_utf8(s),
{
    lemma_encoding_without_percent(s);
    lemma_decoded_without_percent(encode_utf8(s));
}

/// `s` without its trailing `/` characters.
pub open spec fn trim_end_slashes(s: Seq<char>) -> Seq<char>
    decreases s.len(),
{
    if s.len() > 0 && s.last() == '/' {
        trim_end_slashes(s.drop_last())
    } else {
        s
    }
}

/// The index of the last `/` in `s`, if any.
pub open spec fn last_slash(s: Seq<char>) -> Option<int>
    decreases s.len(),
{
    if s.len() == 0 {
        None
    } else if s.last() == '/' {
        Some(s.len() - 1)
    } else {
        last_slash(s.drop_last())
    }
}

/// The URL of the directory above `path`: trailing slashes are dropped, then
/// everything from the last `/` on; a path with no `/` left but at its start
/// has the root `/` as its parent.
pub open spec fn parent_of(path: Seq<char>) -> Seq<char> {
    let t = trim_end_slashes(path);
    match last_slash(t) {
        Some(i) => if i > 0 { t.subrange(0, i) } else { seq!['/'] },
        None => seq!['/'],
    }
}

/// The characters of `v` without its trailing `/` characters.
pub fn trim_end_slash_chars(v: &Vec<char>) -> (r: Vec<char>)
    ensures
        r@ == trim_end_slashes(v@),
{
    let mut end = v.len();
    assert(v@.subrange(0, end as int) =~= v@);
    while end > 0 && v[end - 1] == '/'
        invariant
            end <= v@.len(),
            trim_end_slashes(v@.subrange(0, end as int)) == trim_end_slashes(v@),
        decreases end,
    {
        assert(v@.subrange(0, end as int).drop_last() =~= v@.subrange(0, end - 1));
        end -= 1;
    }
    let mut r: Vec<char> = Vec::new();
    for i in 0..end
        invariant
            end <= v@.len(),
            r@ == v@.subrange(0, i as int),
    {
        r.push(v[i]);
        assert(v@.subrange(0, i as int).push(v@[i as int]) =~= v@.subrange(0, i + 1));
    }
    r
}

/// The URL of the parent directory of `path`.
pub fn parent_url(path: &str) -> (r: String)
    ensures
        r@ == parent_of(path@),
{
    let v = chars_of(path);
    let t = trim_end_slash_chars(&v);
    let mut k = t.len();
    assert(t@.subrange(0, k as int) =~= t@);
    while k > 0 && t[k - 1] != '/'
        invariant
            k <= t@.len(),
            last_slash(t@.subrange(0, k as int)) == last_slash(t@),
        decreases k,
    {
        assert(t@.subrange(0, k as int).drop_last() =~= t@.subrange(0, k - 1));
        k -= 1;
    }
    if k <= 1 {
        proof {
            if k == 1 {
                assert(last_slash(t@.subrange(0, 1)) == Some(0int));
            } else {
                assert(last_slash(t@.subrange(0, 0)) == None::<int>);
            }
        }
        let mut r = String::new();
        push_char(&mut r, '/');
        r
    } else {
        assert(last_slash(t@.subrange(0, k as int)) == Some(k - 1));
        string_of_range(&t, 0, k - 1)
    }
}

proof fn lemma_last_slash(t: Seq<char>)
    ensures
        last_slash(t) matches Some(i) ==> 0 <= i < t.len() && t[i] == '/'
            && forall|k: int| i < k < t.len() ==> t[k] != '/',
        last_slash(t) is None ==> forall|k: int| 0 <= k < t.len() ==> t[k] != '/',
    decreases t.len(),
{
    if t.len() > 0 && t.last() != '/' {
        lemma_last_slash(t.drop_last());
        assert forall|k: int| 0 <= k < t.len() - 1 implies t[k] == t.drop_last()[k] by {}
    }
}

proof fn lemma_trim_end_slashes(s: Seq<char>)
    ensures
        trim_end_slashes(s).len() <= s.len(),
        trim_end_slashes(s) == s.subrange(0, trim_end_slashes(s).len() as int),
        trim_end_slashes(s).len() > 0 ==> trim_end_slashes(s).last() != '/',
    decreases s.len(),
{
    if s.len() > 0 && s.last() == '/' {
        lemma_trim_end_slashes(s.drop_last());
        assert(s.drop_last().subrange(0, trim_end_slashes(s).len() as int)
            =~= s.subrange(0, trim_end_slashes(s).len() as int));
    } else {
        assert(s.subrange(0, s.len() as int) =~= s);
    }
}

/// The parent URL is the root `/`, or a proper prefix of the path (trailing
/// slashes dropped) that a `/` follows, with no `/` after that one; it starts
/// with `/` when the path does; and a trailing `/` on the path changes nothing.
pub proof fn law_parent_url(path: Seq<char>)
    ensures
        ({
            let t = trim_end_slashes(path);
            let r = parent_of(path);
            ||| r == seq!['/']
            ||| {
                &&& r.len() < t.len()
                &&& t.subrange(0, r.len() as int + 1) == r.push('/')
                &&& forall|k: int| r.len() < k < t.len() ==> t[k] != '/'
            }
        }),
        path.len() > 0 && path[0] == '/' ==> parent_of(path).len() > 0 && parent_of(path)[0] == '/',
        parent_of(path.push('/')) == parent_of(path),
{
    let t = trim_end_slashes(path);
    lemma_trim_end_slashes(path);
    lemma_last_slash(t);
    if let Some(i) = last_slash(t) {
        if i > 0 {
            assert(t.subrange(0, i + 1) =~= t.subrange(0, i).push('/'));
            assert(t[0] == path[0]);
        }
    }
    assert(path.push('/').drop_last() =~= path);
}

/// The part of a request target before its query string.
pub open spec fn before_query(path: Seq<char>) -> Seq<char>
    decreases path.len(),
{
    if path.len() == 0 || path[0] == '?' {
        Seq::empty()
    } else {
        seq![path[0]] + before_query(path.drop_first())
    }
}

/// `s` without its leading `/` characters.
pub open spec fn trim_start_slashes(s: Seq<char>) -> Seq<char>
    decreases s.len(),
{
    if s.len() > 0 && s[0] == '/' {
        trim_start_slashes(s.drop_first())
    } else {
        s
    }
}

/// Trimming leading slashes drops exactly the `/` characters at the start:
/// what is left is a suffix of the text that is empty or starts with another
/// character, and everything dropped before it is `/`.
pub proof fn law_trim_start_slashes(s: Seq<char>)
    ensures
        exists|k: int|
            {
                &&& 0 <= k <= s.len()
                &&& forall|i: int| 0 <= i < k ==> #[trigger] s[i] == '/'
                &&& trim_start_slashes(s) == s.subrange(k, s.len() as int)
            },
        trim_start_slashes(s).len() == 0 || trim_start_slashes(s)[0] != '/',
    decreases s.len(),
{
    if s.len() > 0 && s[0] == '/' {
        law_trim_start_slashes(s.drop_first());
        let k = choose|k: int|
            {
                &&& 0 <= k <= s.drop_first().len()
                &&& forall|i: int| 0 <= i < k ==> #[trigger] s.drop_first()[i] == '/'
                &&& trim_start_slashes(s.drop_first()) == s.drop_first().subrange(k, s.drop_first().len() as int)
            };
        assert forall|i: int| 0 <= i < k + 1 implies #[trigger] s[i] == '/' by {
            if i > 0 {
                assert(s[i] == s.drop_first()[i - 1]);
            }
        }
        assert(s.drop_first().subrange(k, s.drop_first().len() as int) =~= s.subrange(k + 1, s.len() as int));
    } else {
        assert(s.subrange(0, s.len() as int) =~= s);
    }
}

/// The decoded URL path that a request target names.
pub open spec fn decoded_target(path: Seq<char>) -> Seq<char> {
    utf8_lossy(percent_decoded(encode_utf8(before_query(path))))
}

/// What to do with a request before the file system is consulted.
pub enum Plan {
    /// The method is neither `GET` nor `HEAD`.
    MethodNotAllowed,
    /// Look up `candidate`, the file system path that the request names under
    /// the root; `decoded` is the decoded URL path.
    Resolve { decoded: String, candidate: String },
}

/// The first step of answering a request: only `GET` and `HEAD` are served;
/// the target loses its query string, is percent-decoded, loses its leading
/// slashes and is joined onto the root directory.
pub fn plan_request(req: &Request, root: &str) -> (r: Plan)
    ensures
        req.method@ != "GET"@ && req.method@ != "HEAD"@ ==> r is MethodNotAllowed,
        req.method@ == "GET"@ || req.method@ == "HEAD"@ ==> (r matches Plan::Resolve { decoded, candidate }
            && decoded@ == decoded_target(req.path@)
            && candidate@ == joined(root@, trim_start_slashes(decoded_target(req.path@)))),
{
    if !text_equals(req.method.as_str(), "GET") && !text_equals(req.method.as_str(), "HEAD") {
        return Plan::MethodNotAllowed;
    }
    let v = chars_of(req.path.as_str());
    let mut q: usize = 0;
    while q < v.len() && v[q] != '?'
        invariant
            q <= v@.len(),
            forall|k: int| 0 <= k < q ==> v@[k] != '?',
        decreases v@.len() - q,
    {
        q += 1;
    }
    proof {
        lemma_before_query(v@, q as int);
    }
    let target = string_of_range(&v, 0, q);
    let decoded = percent_decode(target.as_str());
    let d = chars_of(decoded.as_str());
    let mut s: usize = 0;
    assert(d@.skip(0) =~= d@);
    while s < d.len() && d[s] == '/'
        invariant
            s <= d@.len(),
            trim_start_slashes(d@.skip(s as int)) == trim_start_slashes(d@),
        decreases d@.len() - s,
    {
        assert(d@.skip(s as int).drop_first() =~= d@.skip(s + 1));
        s += 1;
    }
    let relative = string_of_range(&d, s, d.len());
    assert(d@.subrange(s as int, d@.len() as int) =~= d@.skip(s as int));
    let candidate = join_path(root, relative.as_str());
    Plan::Resolve { decoded, candidate }
}

proof fn lemma_before_query(v: Seq<char>, q: int)
    requires
        0 <= q <= v.len(),
        forall|k: int| 0 <= k < q ==> v[k] != '?',
        q < v.len() ==> v[q] == '?',
    ensures
        before_query(v) == v.subrange(0, q),
    decreases v.len(),
{
    if v.len() == 0 || q == 0 {
        assert(v.subrange(0, q) =~= Seq::<char>::empty());
    } else {
        let w = v.drop_first();
        assert forall|k: int| 0 <= k < q - 1 implies w[k] != '?' by {
            assert(w[k] == v[k + 1]);
        }
        lemma_before_query(w, q - 1);
        assert(seq![v[0]] + w.subrange(0, q - 1) =~= v.subrange(0, q));
    }
}

/// What the file system says of a requested path.
pub enum Found {
    /// The path does not resolve to a place inside the root.
    OutsideRoot,
    /// A directory; whether it holds a regular file `index.html`.
    Directory { index_is_file: bool },
    /// A regular file.
    File,
    /// Neither.
    Missing,
}

/// What to send for a resolved path.
#[derive(Debug, PartialEq, Eq, Structural)]
pub enum Action {
    /// Serve the directory's `index.html`.
    ServeIndex,
    /// Serve a listing of the directory.
    ListDirectory,
    /// Serve the file.
    ServeFile,
    /// Refuse with `403 Forbidden`.
    Forbidden,
    /// Answer `404 Not Found`.
    NotFound,
}

/// The second step of answering a request: a path outside the root is
/// refused; a directory is served by its
/// `index.html` unless that is switched off or missing, else by a listing
/// unless listings are switched off, else refused; a file is served; anything
/// else is not found.
pub fn choose_action(found: &Found, no_index: bool, no_dir_listing: bool) -> (r: Action)
    ensures
        *found matches Found::Directory { index_is_file } ==> r == (if !no_index && index_is_file {
            Action::ServeIndex
        } else if !no_dir_listing {
            Action::ListDirectory
        } else {
            Action::Forbidden
        }),
        found is OutsideRoot ==> r == Action::Forbidden,
        found is File ==> r == Action::ServeFile,
        found is Missing ==> r == Action::NotFound,
{
    match found {
        Found::Directory { index_is_file } => {
            if !no_index && *index_is_file {
                Action::ServeIndex
            } else if !no_dir_listing {
                Action::ListDirectory
            } else {
                Action::Forbidden
            }
        },
        Found::OutsideRoot => Action::Forbidden,
        Found::File => Action::ServeFile,
        Found::Missing => Action::NotFound,
    }
}

/// Why a file could not be read.
#[derive(Debug, PartialEq, Eq, Structural)]
pub enum ReadFailure {
    PermissionDenied,
    OutOfMemory,
    Other,
}

/// The response for a file read: its bytes with their content type, or the
/// refusal that matches the failure (`403` when permission is denied, `413`
/// when it does not fit in memory, `404` otherwise).
pub fn file_response(read: Result<(Vec<u8>, &'static str), ReadFailure>, cache_max_age: u64) -> (r: Response)
    ensures
        read matches Ok((bytes, content_type)) ==> r.status == 200 && r.reason@ == status_reason(200)
            && r.body == bytes && r.content_type == content_type && r.cache_max_age == cache_max_age
            && r.location is None,
        read matches Err(ReadFailure::PermissionDenied) ==> is_status_response(r, 403),
        read matches Err(ReadFailure::OutOfMemory) ==> is_status_response(r, 413),
        read matches Err(ReadFailure::Other) ==> is_status_response(r, 404),
{
    match read {
        Ok((bytes, content_type)) => Response::ok(bytes, content_type, cache_max_age),
        Err(ReadFailure::PermissionDenied) => Response::forbidden(),
        Err(ReadFailure::OutOfMemory) => Response::too_large(),
        Err(ReadFailure::Other) => Response::not_found(),
    }
}

/// The line logged for an answered request: the peer's address, the request
/// line's method and path in quotes, the status with its reason phrase, and
/// the body's length.
pub open spec fn log_line_text(
    addr: Seq<char>,
    method: Seq<char>,
    path: Seq<char>,
    status: u16,
    body_len: nat,
) -> Seq<char> {
    addr + " \""@ + method + " "@ + path + "\" ("@ + decimal(status as nat) + " "@ + status_reason(status)
        + ") ("@ + decimal(body_len) + " bytes)."@
}

/// The log line for `request`, answered with `response`, from the peer `addr`.
pub fn request_log_line(addr: &str, request: &Request, response: &Response) -> (r: String)
    ensures
        r@ == log_line_text(addr@, request.method@, request.path@, response.status, response.body@.len()),
{
    let mut r = String::new();
    r.append(addr);
    r.append(" \"");
    r.append(request.method.as_str());
    r.append(" ");
    r.append(request.path.as_str());
    r.append("\" (");
    push_decimal(&mut r, response.status as u64);
    r.append(" ");
    r.append(response_name(response.status));
    r.append(") (");
    push_decimal(&mut r, response.body.len() as u64);
    r.append(" bytes).");
    assert(r@ =~= log_line_text(addr@, request.method@, request.path@, response.status, response.body@.len()));
    r
}

} // verus!
