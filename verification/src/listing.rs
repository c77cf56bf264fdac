//! Directory listings: entry order and the HTML page that lists them.
use vstd::prelude::*;
use vstd::relations::{sorted_by, total_ordering};
use vstd::utf8::encode_utf8;
use crate::client::{parent_of, parent_url, trim_end_slash_chars, trim_end_slashes};
use crate::http::{status_reason, Response};
use crate::text::{chars_of, extend_chars, extend_str, join_with, push_joined, texts_of};

verus! {

broadcast use vstd::seq_lib::group_to_multiset_ensures, vstd::multiset::group_multiset_axioms;

/// Whether name `a` sorts no later than `b`: lexicographic order by code point,
/// which is also the byte order of their UTF-8 encodings.
pub open spec fn name_le(a: Seq<char>, b: Seq<char>) -> bool
    decreases a.len(),
{
    if a.len() == 0 {
        true
    } else if b.len() == 0 {
        false
    } else if a[0] != b[0] {
        (a[0] as u32) < (b[0] as u32)
    } else {
        name_le(a.drop_first(), b.drop_first())
    }
}

/// The order of a listing: directories before files, then by name.
pub open spec fn entry_le(x: (Seq<char>, bool), y: (Seq<char>, bool)) -> bool {
    (x.1 && !y.1) || (x.1 == y.1 && name_le(x.0, y.0))
}

proof fn lemma_name_le_reflexive(a: Seq<char>)
    ensures
        name_le(a, a),
    decreases a.len(),
{
    if a.len() > 0 {
        lemma_name_le_reflexive(a.drop_first());
    }
}

proof fn lemma_char_code_injective(c: char, d: char)
    requires
        c != d,
    ensures
        (c as u32) != (d as u32),
{
    if (c as u32) == (d as u32) {
        vstd::utf8::char_u32_cast(c, c as u32);
        vstd::utf8::char_u32_cast(d, d as u32);
    }
}

proof fn lemma_name_le_antisymmetric(a: Seq<char>, b: Seq<char>)
    requires
        name_le(a, b),
        name_le(b, a),
    ensures
        a == b,
    decreases a.len(),
{
    if a.len() > 0 && b.len() > 0 {
        if a[0] != b[0] {
            lemma_char_code_injective(a[0], b[0]);
        } else {
            lemma_name_le_antisymmetric(a.drop_first(), b.drop_first());
            assert(a =~= seq![a[0]] + a.drop_first());
            assert(b =~= seq![b[0]] + b.drop_first());
        }
    }
}

proof fn lemma_name_le_transitive(a: Seq<char>, b: Seq<char>, c: Seq<char>)
    requires
        name_le(a, b),
        name_le(b, c),
    ensures
        name_le(a, c),
    decreases a.len(),
{
    if a.len() > 0 && b.len() > 0 && c.len() > 0 {
        if a[0] == b[0] && b[0] == c[0] {
            lemma_name_le_transitive(a.drop_first(), b.drop_first(), c.drop_first());
        } else if a[0] != c[0] {
        } else {
            // a[0] == c[0] but b[0] differs from one of them: the codes would
            // have to be both below and above b[0]'s.
            lemma_char_code_injective(a[0], b[0]);
        }
    }
}

proof fn lemma_name_le_total(a: Seq<char>, b: Seq<char>)
    ensures
        name_le(a, b) || name_le(b, a),
    decreases a.len(),
{
    if a.len() > 0 && b.len() > 0 {
        if a[0] == b[0] {
            lemma_name_le_total(a.drop_first(), b.drop_first());
        } else {
            lemma_char_code_injective(a[0], b[0]);
        }
    }
}

/// The listing order is a total order, so a listing's order is fully
/// determined by its entries.
pub proof fn law_listing_order_total()
    ensures
        total_ordering(|x: (Seq<char>, bool), y: (Seq<char>, bool)| entry_le(x, y)),
{
    let leq = |x: (Seq<char>, bool), y: (Seq<char>, bool)| entry_le(x, y);
    assert forall|x: (Seq<char>, bool)| #[trigger] leq(x, x) by {
        lemma_name_le_reflexive(x.0);
    }
    assert forall|x: (Seq<char>, bool), y: (Seq<char>, bool)|
        #[trigger] leq(x, y) && #[trigger] leq(y, x) implies x == y by {
        lemma_name_le_antisymmetric(x.0, y.0);
    }
    assert forall|x: (Seq<char>, bool), y: (Seq<char>, bool), z: (Seq<char>, bool)|
        #[trigger] leq(x, y) && #[trigger] leq(y, z) implies leq(x, z) by {
        if x.1 == y.1 && y.1 == z.1 {
            lemma_name_le_transitive(x.0, y.0, z.0);
        }
    }
    assert forall|x: (Seq<char>, bool), y: (Seq<char>, bool)|
        #[trigger] leq(x, y) || #[trigger] leq(y, x) by {
        lemma_name_le_total(x.0, y.0);
    }
}

/// A listing shows each entry exactly as often as it was given, directories
/// before files and each group by name.
pub proof fn law_listing_is_ordered_permutation(entries: Seq<(Seq<char>, bool)>)
    ensures
        sorted_by(entries.sort_by(listing_order()), listing_order()),
        entries.sort_by(listing_order()).to_multiset() == entries.to_multiset(),
        forall|i: int, j: int| 0 <= i < j < entries.len() ==>
            (#[trigger] entries.sort_by(listing_order())[i]).1
            || !(#[trigger] entries.sort_by(listing_order())[j]).1,
{
    law_listing_order_total();
    entries.lemma_sort_by_ensures(listing_order());
    let s = entries.sort_by(listing_order());
    assert(s.len() == entries.len()) by {
        assert(s.to_multiset().len() == entries.to_multiset().len());
    }
    assert forall|i: int, j: int| 0 <= i < j < entries.len() implies
        (#[trigger] s[i]).1 || !(#[trigger] s[j]).1 by {
        assert(listing_order()(s[i], s[j]));
    }
}

/// Whether `a` comes no later than `b` in lexicographic order by code
/// point: `a` is a prefix of `b`, or at the first position where they differ
/// `a` has the smaller character.
pub open spec fn lexicographic_le(a: Seq<char>, b: Seq<char>) -> bool {
    ||| (a.len() <= b.len() && b.subrange(0, a.len() as int) == a)
    ||| exists|k: int|
        0 <= k < a.len() && k < b.len() && a.subrange(0, k) == b.subrange(0, k) && (#[trigger] a[k] as u32) < (b[k] as u32)
}

proof fn lemma_name_le_lexicographic(a: Seq<char>, b: Seq<char>)
    ensures
        name_le(a, b) == lexicographic_le(a, b),
    decreases a.len(),
{
    if a.len() == 0 {
        assert(b.subrange(0, 0) =~= a);
    } else if b.len() == 0 {
        assert(!lexicographic_le(a, b));
    } else if a[0] != b[0] {
        lemma_char_code_injective(a[0], b[0]);
        if (a[0] as u32) < (b[0] as u32) {
            assert(a.subrange(0, 0) =~= b.subrange(0, 0));
        } else {
            assert(!(a.len() <= b.len() && b.subrange(0, a.len() as int) == a)) by {
                if a.len() <= b.len() && b.subrange(0, a.len() as int) == a {
                    assert(b.subrange(0, a.len() as int)[0] == a[0]);
                }
            }
            assert forall|k: int|
                0 <= k < a.len() && k < b.len() && a.subrange(0, k) == b.subrange(0, k) implies !((#[trigger] a[k] as u32) < (b[k] as u32)) by {
                if k > 0 {
                    assert(a.subrange(0, k)[0] == b.subrange(0, k)[0]);
                }
            }
        }
    } else {
        let a1 = a.drop_first();
        let b1 = b.drop_first();
        lemma_name_le_lexicographic(a1, b1);
        // prefix part
        if a.len() <= b.len() {
            assert((b.subrange(0, a.len() as int) == a) == (b1.subrange(0, a1.len() as int) == a1)) by {
                if b.subrange(0, a.len() as int) == a {
                    assert(b1.subrange(0, a1.len() as int) =~= a1) by {
                        assert forall|i: int| 0 <= i < a1.len() implies b1.subrange(0, a1.len() as int)[i] == a1[i] by {
                            assert(b.subrange(0, a.len() as int)[i + 1] == a[i + 1]);
                        }
                    }
                }
                if b1.subrange(0, a1.len() as int) == a1 {
                    assert(b.subrange(0, a.len() as int) =~= a) by {
                        assert forall|i: int| 0 <= i < a.len() implies b.subrange(0, a.len() as int)[i] == a[i] by {
                            if i > 0 {
                                assert(b1.subrange(0, a1.len() as int)[i - 1] == a1[i - 1]);
                            }
                        }
                    }
                }
            }
        }
        // differing position part
        if exists|k: int|
            0 <= k < a.len() && k < b.len() && a.subrange(0, k) == b.subrange(0, k) && (#[trigger] a[k] as u32) < (b[k] as u32) {
            let k = choose|k: int|
                0 <= k < a.len() && k < b.len() && a.subrange(0, k) == b.subrange(0, k) && (#[trigger] a[k] as u32) < (b[k] as u32);
            assert(k > 0);
            assert(a1.subrange(0, k - 1) =~= b1.subrange(0, k - 1)) by {
                assert forall|i: int| 0 <= i < k - 1 implies #[trigger] a1.subrange(0, k - 1)[i] == b1.subrange(0, k - 1)[i] by {
                    assert(a.subrange(0, k)[i + 1] == b.subrange(0, k)[i + 1]);
                }
            }
            assert(a1[k - 1] == a[k] && b1[k - 1] == b[k]);
            assert(lexicographic_le(a1, b1));
        }
        if exists|k: int|
            0 <= k < a1.len() && k < b1.len() && a1.subrange(0, k) == b1.subrange(0, k) && (#[trigger] a1[k] as u32) < (b1[k] as u32) {
            let k = choose|k: int|
                0 <= k < a1.len() && k < b1.len() && a1.subrange(0, k) == b1.subrange(0, k) && (#[trigger] a1[k] as u32) < (b1[k] as u32);
            assert(a.subrange(0, k + 1) =~= b.subrange(0, k + 1)) by {
                assert forall|i: int| 0 <= i < k + 1 implies #[trigger] a.subrange(0, k + 1)[i] == b.subrange(0, k + 1)[i] by {
                    if i > 0 {
                        assert(a1.subrange(0, k)[i - 1] == b1.subrange(0, k)[i - 1]);
                    }
                }
            }
            assert(a[k + 1] == a1[k] && b[k + 1] == b1[k]);
            assert(lexicographic_le(a, b));
        }
    }
}

/// The listing order: every directory comes before every file, and two
/// entries of the same kind are in lexicographic order of their names by code
/// point (a proper prefix first; otherwise the first differing character
/// decides), which is the byte order of their UTF-8 encodings.
pub proof fn law_listing_order_by_kind_then_name(a: Seq<char>, b: Seq<char>, is_dir: bool)
    ensures
        entry_le((a, true), (b, false)),
        !entry_le((b, false), (a, true)),
        entry_le((a, is_dir), (b, is_dir)) == lexicographic_le(a, b),
{
    lemma_name_le_lexicographic(a, b);
}

/// The listing order as a relation.
pub open spec fn listing_order() -> spec_fn((Seq<char>, bool), (Seq<char>, bool)) -> bool {
    |x: (Seq<char>, bool), y: (Seq<char>, bool)| entry_le(x, y)
}

/// Directory entries (name, whether it is a directory) as mathematical values.
pub open spec fn entries_view(v: Seq<(String, bool)>) -> Seq<(Seq<char>, bool)> {
    v.map_values(|e: (String, bool)| (e.0@, e.1))
}

/// Directory entries held as character vectors, as mathematical values.
pub open spec fn items_view(v: Seq<(Vec<char>, bool)>) -> Seq<(Seq<char>, bool)> {
    v.map_values(|e: (Vec<char>, bool)| (e.0@, e.1))
}

/// Whether the entries are in listing order.
pub open spec fn in_listing_order(s: Seq<(Seq<char>, bool)>) -> bool {
    forall|i: int, j: int| 0 <= i < j < s.len() ==> entry_le(#[trigger] s[i], #[trigger] s[j])
}

proof fn lemma_entry_le_transitive(x: (Seq<char>, bool), y: (Seq<char>, bool), z: (Seq<char>, bool))
    requires
        entry_le(x, y),
        entry_le(y, z),
    ensures
        entry_le(x, z),
{
    if x.1 == y.1 && y.1 == z.1 {
        lemma_name_le_transitive(x.0, y.0, z.0);
    }
}

proof fn lemma_entry_le_total(x: (Seq<char>, bool), y: (Seq<char>, bool))
    ensures
        entry_le(x, y) || entry_le(y, x),
{
    lemma_name_le_total(x.0, y.0);
}

fn name_le_exec(a: &Vec<char>, b: &Vec<char>) -> (r: bool)
    ensures
        r == name_le(a@, b@),
{
    let mut i: usize = 0;
    assert(a@.skip(0) =~= a@);
    assert(b@.skip(0) =~= b@);
    while i < a.len() && i < b.len() && a[i] == b[i]
        invariant
            i <= a@.len(),
            i <= b@.len(),
            name_le(a@.skip(i as int), b@.skip(i as int)) == name_le(a@, b@),
        decreases a@.len() - i,
    {
        assert(a@.skip(i as int).drop_first() =~= a@.skip(i + 1));
        assert(b@.skip(i as int).drop_first() =~= b@.skip(i + 1));
        i += 1;
    }
    if i == a.len() {
        true
    } else if i == b.len() {
        false
    } else {
        (a[i] as u32) < (b[i] as u32)
    }
}

fn entry_le_exec(x: &(Vec<char>, bool), y: &(Vec<char>, bool)) -> (r: bool)
    ensures
        r == entry_le((x.0@, x.1), (y.0@, y.1)),
{
    (x.1 && !y.1) || (x.1 == y.1 && name_le_exec(&x.0, &y.0))
}

proof fn lemma_insert_keeps_order(s: Seq<(Seq<char>, bool)>, p: int, x: (Seq<char>, bool))
    requires
        in_listing_order(s),
        0 <= p <= s.len(),
        forall|k: int| 0 <= k < p ==> entry_le(#[trigger] s[k], x),
        p < s.len() ==> !entry_le(s[p], x),
    ensures
        in_listing_order(s.insert(p, x)),
{
    let t = s.insert(p, x);
    assert forall|i: int, j: int| 0 <= i < j < t.len() implies entry_le(#[trigger] t[i], #[trigger] t[j]) by {
        if j < p {
            assert(t[i] == s[i] && t[j] == s[j]);
        } else if j == p {
            assert(t[i] == s[i]);
        } else if i < p {
            assert(t[i] == s[i] && t[j] == s[j - 1]);
        } else if i == p {
            assert(t[j] == s[j - 1]);
            lemma_entry_le_total(s[p], x);
            if j - 1 > p {
                assert(entry_le(s[p], s[j - 1]));
                lemma_entry_le_transitive(x, s[p], s[j - 1]);
            }
        } else {
            assert(t[i] == s[i - 1] && t[j] == s[j - 1]);
        }
    }
}

/// Sorts entries into listing order.
pub fn sort_listing(items: &Vec<(Vec<char>, bool)>) -> (r: Vec<(Vec<char>, bool)>)
    ensures
        in_listing_order(items_view(r@)),
        items_view(r@).to_multiset() == items_view(items@).to_multiset(),
{
    let mut out: Vec<(Vec<char>, bool)> = Vec::new();
    let n = items.len();
    assert(items_view(items@).take(0) =~= Seq::<(Seq<char>, bool)>::empty());
    assert(items_view(out@) =~= Seq::<(Seq<char>, bool)>::empty());
    for i in 0..n
        invariant
            n == items@.len(),
            in_listing_order(items_view(out@)),
            items_view(out@).to_multiset() == items_view(items@).take(i as int).to_multiset(),
    {
        let x = (crate::text::copy_chars(&items[i].0), items[i].1);
        let ghost xv = (x.0@, x.1);
        assert(xv == items_view(items@)[i as int]);
        let mut p: usize = 0;
        while p < out.len() && entry_le_exec(&out[p], &x)
            invariant
                p <= out@.len(),
                xv == (x.0@, x.1),
                forall|k: int| 0 <= k < p ==> entry_le(#[trigger] items_view(out@)[k], xv),
            decreases out@.len() - p,
        {
            p += 1;
        }
        let ghost before = items_view(out@);
        proof {
            lemma_insert_keeps_order(before, p as int, xv);
        }
        out.insert(p, x);
        assert(items_view(out@) =~= before.insert(p as int, xv));
        proof {
            let t = before.insert(p as int, xv);
            assert(t.remove(p as int) =~= before);
            assert(t[p as int] == xv);
            assert(t.to_multiset() =~= before.to_multiset().insert(xv));
            assert(items_view(items@).take(i + 1) =~= items_view(items@).take(i as int).push(xv));
        }
    }
    assert(items_view(items@).take(n as int) =~= items_view(items@));
    out
}

/// The marker of a directory after its name.
pub open spec fn dir_suffix(is_dir: bool) -> Seq<char> {
    if is_dir { seq!['/'] } else { Seq::empty() }
}

/// The list item linking to an entry of the directory at `url`.
pub open spec fn entry_row(url: Seq<char>, e: (Seq<char>, bool)) -> Seq<char> {
    "<li><a href=\""@ + trim_end_slashes(url) + seq!['/'] + e.0 + dir_suffix(e.1) + "\">"@ + e.0
        + dir_suffix(e.1) + "</a></li>"@
}

/// The list item linking to the directory above `url`.
pub open spec fn parent_row(url: Seq<char>) -> Seq<char> {
    "<li><a href=\""@ + parent_of(url) + "\">../</a></li>"@
}

/// The list items of a listing of `url`: a link upwards unless `url` is the
/// root, then one item per entry in the given order.
pub open spec fn listing_rows(url: Seq<char>, entries: Seq<(Seq<char>, bool)>) -> Seq<Seq<char>> {
    (if url != seq!['/'] { seq![parent_row(url)] } else { Seq::empty() })
        + entries.map_values(|e: (Seq<char>, bool)| entry_row(url, e))
}

/// What separates two list items in a listing page.
pub open spec fn row_separator() -> Seq<char> {
    "\n        "@
}

/// The HTML page listing the directory at `url`.
pub open spec fn listing_page(url: Seq<char>, rows: Seq<Seq<char>>) -> Seq<char> {
    "<!DOCTYPE html>\n<html lang=\"en\">\n<head>\n  <meta charset=\"utf-8\">\n  <title>Index of "@ + url
        + "</title>\n  <style>\n    body { font-family: monospace; padding: 2em; }\n    ul   { list-style: none; padding: 0; }\n    li   { padding: 0.2em 0; }\n    a    { text-decoration: none; color: #0066cc; }\n    a:hover { text-decoration: underline; }\n  </style>\n</head>\n<body>\n  <h1>Index of "@
        + url + "</h1>\n  <ul>\n        "@ + join_with(rows, row_separator())
        + "\n  </ul>\n</body>\n</html>"@
}

fn entry_row_chars(trimmed: &Vec<char>, e: &(Vec<char>, bool)) -> (r: Vec<char>)
    ensures
        r@ == "<li><a href=\""@ + trimmed@ + seq!['/'] + e.0@ + dir_suffix(e.1) + "\">"@ + e.0@
            + dir_suffix(e.1) + "</a></li>"@,
{
    let mut r: Vec<char> = Vec::new();
    extend_str(&mut r, "<li><a href=\"");
    extend_chars(&mut r, trimmed);
    r.push('/');
    extend_chars(&mut r, &e.0);
    if e.1 {
        r.push('/');
    }
    extend_str(&mut r, "\">");
    extend_chars(&mut r, &e.0);
    if e.1 {
        r.push('/');
    }
    extend_str(&mut r, "</a></li>");
    assert(r@ =~= "<li><a href=\""@ + trimmed@ + seq!['/'] + e.0@ + dir_suffix(e.1) + "\">"@ + e.0@
        + dir_suffix(e.1) + "</a></li>"@);
    r
}

/// The `200 OK` response listing the directory at `url_path` with the given
/// entries (name, whether it is a directory), directories first, then by name.
pub fn directory_listing(url_path: &str, entries: &Vec<(String, bool)>, cache_max_age: u64) -> (r: Response)
    ensures
        r.status == 200,
        r.reason@ == status_reason(200),
        r.content_type@ == "text/html"@,
        r.cache_max_age == cache_max_age,
        r.location is None,
        r.body@ == encode_utf8(listing_page(
            url_path@,
            listing_rows(url_path@, entries_view(entries@).sort_by(listing_order())),
        )),
{
    let url = chars_of(url_path);
    let mut items: Vec<(Vec<char>, bool)> = Vec::new();
    let n = entries.len();
    for i in 0..n
        invariant
            n == entries@.len(),
            items_view(items@) == entries_view(entries@).take(i as int),
    {
        let name = chars_of(entries[i].0.as_str());
        assert(name@ == entries@[i as int].0@);
        let ghost before = items@;
        items.push((name, entries[i].1));
        assert(items@ == before.push((name, entries@[i as int].1)));
        assert(entries_view(entries@).take(i + 1) =~= entries_view(entries@).take(i as int).push(
            (entries@[i as int].0@, entries@[i as int].1),
        ));
        assert(items_view(items@) =~= entries_view(entries@).take(i + 1));
    }
    assert(entries_view(entries@).take(n as int) =~= entries_view(entries@));
    let sorted = sort_listing(&items);
    let ghost sv = items_view(sorted@);
    proof {
        let ev = entries_view(entries@);
        law_listing_order_total();
        ev.lemma_sort_by_ensures(listing_order());
        assert(sorted_by(sv, listing_order()));
        vstd::seq_lib::lemma_sorted_unique(sv, ev.sort_by(listing_order()), listing_order());
    }
    let mut rows: Vec<Vec<char>> = Vec::new();
    let is_root = url.len() == 1 && url[0] == '/';
    assert(is_root == (url@ == seq!['/'])) by {
        if url@ == seq!['/'] {
            assert(url@.len() == 1 && url@[0] == '/');
        }
        if is_root {
            assert(url@ =~= seq!['/']);
        }
    }
    if !is_root {
        let parent = chars_of(parent_url(url_path).as_str());
        let mut row: Vec<char> = Vec::new();
        extend_str(&mut row, "<li><a href=\"");
        extend_chars(&mut row, &parent);
        extend_str(&mut row, "\">../</a></li>");
        rows.push(row);
    }
    let ghost head = texts_of(rows@);
    assert(head =~= (if url@ != seq!['/'] { seq![parent_row(url@)] } else { Seq::<Seq<char>>::empty() }));
    let trimmed = trim_end_slash_chars(&url);
    let m = sorted.len();
    assert(sv.take(0).map_values(|e: (Seq<char>, bool)| entry_row(url@, e)) =~= Seq::<Seq<char>>::empty());
    assert(texts_of(rows@) =~= head + sv.take(0).map_values(|e: (Seq<char>, bool)| entry_row(url@, e)));
    for j in 0..m
        invariant
            m == sorted@.len(),
            sv == items_view(sorted@),
            trimmed@ == trim_end_slashes(url@),
            texts_of(rows@) == head + sv.take(j as int).map_values(|e: (Seq<char>, bool)| entry_row(url@, e)),
    {
        let row = entry_row_chars(&trimmed, &sorted[j]);
        assert(sv[j as int] == (sorted@[j as int].0@, sorted@[j as int].1));
        assert(row@ == entry_row(url@, sv[j as int]));
        let ghost before = rows@;
        rows.push(row);
        assert(texts_of(rows@) =~= texts_of(before).push(row@));
        assert(sv.take(j + 1) =~= sv.take(j as int).push(sv[j as int]));
        assert(texts_of(rows@) =~= head + sv.take(j + 1).map_values(|e: (Seq<char>, bool)| entry_row(url@, e)));
    }
    assert(sv.take(m as int) =~= sv);
    let mut body = String::new();
    body.append("<!DOCTYPE html>\n<html lang=\"en\">\n<head>\n  <meta charset=\"utf-8\">\n  <title>Index of ");
    body.append(url_path);
    body.append("</title>\n  <style>\n    body { font-family: monospace; padding: 2em; }\n    ul   { list-style: none; padding: 0; }\n    li   { padding: 0.2em 0; }\n    a    { text-decoration: none; color: #0066cc; }\n    a:hover { text-decoration: underline; }\n  </style>\n</head>\n<body>\n  <h1>Index of ");
    body.append(url_path);
    body.append("</h1>\n  <ul>\n        ");
    push_joined(&mut body, &rows, "\n        ");
    body.append("\n  </ul>\n</body>\n</html>");
    assert(body@ =~= listing_page(url_path@, listing_rows(url_path@, sv)));
    Response::ok(body.as_str().as_bytes_vec(), "text/html", cache_max_age)
}

} // verus!
