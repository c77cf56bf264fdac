//! Lexical path handling on Unix-style paths: splitting into components,
//! joining, `.`/`..` normalisation and component-wise prefix tests.
use vstd::prelude::*;
use crate::text::{chars_equal, chars_of, copy_chars, join_with, push_char, push_chars, push_joined, texts_of};

verus! {

/// One component of a path, as a mathematical value.
pub enum PathPart {
    Root,
    Cur,
    Parent,
    Normal(Seq<char>),
}

/// One component of a path.
#[derive(Debug)]
pub enum Component {
    RootDir,
    CurDir,
    ParentDir,
    Normal(Vec<char>),
}

impl View for Component {
    type V = PathPart;

    open spec fn view(&self) -> PathPart {
        match self {
            Component::RootDir => PathPart::Root,
            Component::CurDir => PathPart::Cur,
            Component::ParentDir => PathPart::Parent,
            Component::Normal(v) => PathPart::Normal(v@),
        }
    }
}

/// The views of a sequence of components.
pub open spec fn parts_of(v: Seq<Component>) -> Seq<PathPart> {
    v.map_values(|c: Component| c@)
}

/// The component that a segment between separators stands for: empty
/// segments and `.` stand for none.
pub open spec fn segment_parts(seg: Seq<char>) -> Seq<PathPart> {
    if seg.len() == 0 || seg == seq!['.'] {
        Seq::empty()
    } else if seg == seq!['.', '.'] {
        seq![PathPart::Parent]
    } else {
        seq![PathPart::Normal(seg)]
    }
}

/// The components of `s`, given that `cur` has been read of the segment in
/// progress.
pub open spec fn parts_from(s: Seq<char>, cur: Seq<char>) -> Seq<PathPart>
    decreases s.len(),
{
    if s.len() == 0 {
        segment_parts(cur)
    } else if s[0] == '/' {
        segment_parts(cur) + parts_from(s.drop_first(), Seq::empty())
    } else {
        parts_from(s.drop_first(), cur.push(s[0]))
    }
}

/// Whether `s` starts with a `.` segment.
pub open spec fn starts_with_cur_dir(s: Seq<char>) -> bool {
    s.len() > 0 && s[0] == '.' && (s.len() == 1 || s[1] == '/')
}

/// The components of a path: a leading `/` is the root; repeated separators,
/// a trailing separator and `.` segments are ignored, except that a path that
/// starts with a `.` segment keeps it as its first component.
pub open spec fn components(s: Seq<char>) -> Seq<PathPart> {
    if s.len() > 0 && s[0] == '/' {
        seq![PathPart::Root] + parts_from(s.drop_first(), Seq::empty())
    } else if starts_with_cur_dir(s) {
        seq![PathPart::Cur] + parts_from(s.drop_first(), Seq::empty())
    } else {
        parts_from(s, Seq::empty())
    }
}

fn segment_component(cur: Vec<char>, out: &mut Vec<Component>)
    ensures
        parts_of(final(out)@) == parts_of(old(out)@) + segment_parts(cur@),
{
    let n = cur.len();
    if n == 0 || (n == 1 && cur[0] == '.') {
        assert(n == 1 ==> cur@ =~= seq!['.']);
        assert(parts_of(out@) =~= parts_of(old(out)@) + segment_parts(cur@));
    } else if n == 2 && cur[0] == '.' && cur[1] == '.' {
        assert(cur@ =~= seq!['.', '.']);
        out.push(Component::ParentDir);
        assert(parts_of(out@) =~= parts_of(old(out)@) + segment_parts(cur@));
    } else {
        assert(cur@ != seq!['.']) by {
            if cur@ == seq!['.'] { assert(cur@.len() == 1 && cur@[0] == '.'); }
        }
        assert(cur@ != seq!['.', '.']) by {
            if cur@ == seq!['.', '.'] { assert(cur@.len() == 2 && cur@[0] == '.' && cur@[1] == '.'); }
        }
        let ghost c = cur@;
        out.push(Component::Normal(cur));
        assert(parts_of(out@) =~= parts_of(old(out)@) + segment_parts(c));
    }
}

/// Appends to `out` the components of `v` from index `start` on.
fn push_parts(v: &Vec<char>, start: usize, out: &mut Vec<Component>)
    requires
        start <= v@.len(),
    ensures
        parts_of(final(out)@) == parts_of(old(out)@) + parts_from(
            v@.subrange(start as int, v@.len() as int),
            Seq::empty(),
        ),
{
    let n = v.len();
    let mut cur: Vec<char> = Vec::new();
    let mut i = start;
    let ghost whole = v@.subrange(start as int, n as int);
    assert(v@.subrange(i as int, n as int) == whole);
    while i < n
        invariant
            start <= i <= n,
            n == v@.len(),
            whole == v@.subrange(start as int, n as int),
            parts_of(out@) + parts_from(v@.subrange(i as int, n as int), cur@)
                == parts_of(old(out)@) + parts_from(whole, Seq::empty()),
        decreases n - i,
    {
        let ghost rest = v@.subrange(i as int, n as int);
        assert(rest.drop_first() =~= v@.subrange(i + 1, n as int));
        let c = v[i];
        if c == '/' {
            let ghost before = parts_of(out@);
            let ghost seg = cur@;
            segment_component(cur, out);
            cur = Vec::new();
            assert(parts_of(out@) + parts_from(v@.subrange(i + 1, n as int), cur@)
                =~= before + parts_from(rest, seg));
        } else {
            cur.push(c);
        }
        i += 1;
    }
    assert(v@.subrange(n as int, n as int) =~= Seq::<char>::empty());
    segment_component(cur, out);
}

/// The components of a path.
pub fn path_components(path: &str) -> (r: Vec<Component>)
    ensures
        parts_of(r@) == components(path@),
{
    let v = chars_of(path);
    let n = v.len();
    let mut out: Vec<Component> = Vec::new();
    if n > 0 && v[0] == '/' {
        out.push(Component::RootDir);
        push_parts(&v, 1, &mut out);
        assert(v@.subrange(1, n as int) =~= v@.drop_first());
    } else if n > 0 && v[0] == '.' && (n == 1 || v[1] == '/') {
        out.push(Component::CurDir);
        push_parts(&v, 1, &mut out);
        assert(v@.subrange(1, n as int) =~= v@.drop_first());
    } else {
        push_parts(&v, 0, &mut out);
        assert(v@.subrange(0, n as int) =~= v@);
    }
    assert(parts_of(Seq::<Component>::empty()) =~= Seq::<PathPart>::empty());
    out
}

/// A lexically normalised path: whether it starts at the root, and its
/// names in order.
pub struct NormalForm {
    pub absolute: bool,
    pub names: Seq<Seq<char>>,
}

/// The effect of one component on a path built up by pushing components:
/// the root starts the path over, `.` does nothing, `..` drops the last name
/// if there is one, and a name is appended.
pub open spec fn normal_step(acc: NormalForm, p: PathPart) -> NormalForm {
    match p {
        PathPart::Root => NormalForm { absolute: true, names: Seq::empty() },
        PathPart::Cur => acc,
        PathPart::Parent => if acc.names.len() > 0 {
            NormalForm { absolute: acc.absolute, names: acc.names.drop_last() }
        } else {
            acc
        },
        PathPart::Normal(x) => NormalForm { absolute: acc.absolute, names: acc.names.push(x) },
    }
}

/// The normal form reached by applying the components in order to an empty
/// path.
pub open spec fn normal_form(parts: Seq<PathPart>) -> NormalForm
    decreases parts.len(),
{
    if parts.len() == 0 {
        NormalForm { absolute: false, names: Seq::empty() }
    } else {
        normal_step(normal_form(parts.drop_last()), parts.last())
    }
}

/// The text of a normal form.
pub open spec fn render(n: NormalForm) -> Seq<char> {
    if n.absolute {
        seq!['/'] + join_with(n.names, seq!['/'])
    } else {
        join_with(n.names, seq!['/'])
    }
}

/// The text of `path` after lexical normalisation.
pub open spec fn normalized(path: Seq<char>) -> Seq<char> {
    render(normal_form(components(path)))
}

/// Lexically normalises `path`: `.` components are dropped and each `..`
/// removes the name before it; nothing on disk is consulted.
pub fn normalize_path(path: &str) -> (r: String)
    ensures
        r@ == normalized(path@),
{
    let parts = path_components(path);
    let ghost pv = parts_of(parts@);
    let n = parts.len();
    let mut absolute = false;
    let mut names: Vec<Vec<char>> = Vec::new();
    assert(pv.take(0) =~= Seq::<PathPart>::empty());
    assert(texts_of(names@) =~= Seq::<Seq<char>>::empty());
    for i in 0..n
        invariant
            n == parts@.len(),
            pv == parts_of(parts@),
            (NormalForm { absolute: absolute, names: texts_of(names@) }) == normal_form(pv.take(i as int)),
    {
        assert(pv.take(i + 1).drop_last() =~= pv.take(i as int));
        assert(pv.take(i + 1).last() == parts@[i as int]@);
        match &parts[i] {
            Component::RootDir => {
                absolute = true;
                names = Vec::new();
                assert(texts_of(names@) =~= Seq::<Seq<char>>::empty());
            },
            Component::CurDir => {},
            Component::ParentDir => {
                if names.len() > 0 {
                    let ghost before = names@;
                    names.pop();
                    assert(texts_of(names@) =~= texts_of(before).drop_last());
                }
            },
            Component::Normal(x) => {
                let ghost before = names@;
                names.push(copy_chars(x));
                assert(texts_of(names@) =~= texts_of(before).push(x@));
            },
        }
    }
    assert(pv.take(n as int) =~= pv);
    let mut r = String::new();
    if absolute {
        push_char(&mut r, '/');
    }
    let ghost start = r@;
    push_joined(&mut r, &names, "/");
    proof {
        reveal_strlit("/");
        assert("/"@ =~= seq!['/']);
        if !absolute {
            assert(start =~= Seq::<char>::empty());
        }
    }
    assert(r@ =~= render(NormalForm { absolute: absolute, names: texts_of(names@) }));
    r
}

/// Whether `base` is a component-wise prefix of `path`.
pub open spec fn is_component_prefix(base: Seq<PathPart>, path: Seq<PathPart>) -> bool {
    base.len() <= path.len() && path.subrange(0, base.len() as int) == base
}

fn component_equal(a: &Component, b: &Component) -> (r: bool)
    ensures
        r == (a@ == b@),
{
    match (a, b) {
        (Component::RootDir, Component::RootDir) => true,
        (Component::CurDir, Component::CurDir) => true,
        (Component::ParentDir, Component::ParentDir) => true,
        (Component::Normal(x), Component::Normal(y)) => chars_equal(x, y),
        _ => false,
    }
}

/// Whether `path` starts with `base`, comparing whole components.
pub fn path_starts_with(path: &str, base: &str) -> (r: bool)
    ensures
        r == is_component_prefix(components(base@), components(path@)),
{
    let p = path_components(path);
    let b = path_components(base);
    let ghost pv = parts_of(p@);
    let ghost bv = parts_of(b@);
    if b.len() > p.len() {
        return false;
    }
    let n = b.len();
    for i in 0..n
        invariant
            n == b@.len(),
            n <= p@.len(),
            pv == parts_of(p@),
            bv == parts_of(b@),
            pv.len() == p@.len(),
            bv.len() == n,
            pv == components(path@),
            bv == components(base@),
            forall|k: int| 0 <= k < i ==> pv[k] == bv[k],
    {
        let same = component_equal(&p[i], &b[i]);
        assert(pv[i as int] == p@[i as int]@);
        assert(bv[i as int] == b@[i as int]@);
        if !same {
            assert(pv.subrange(0, n as int)[i as int] != bv[i as int]);
            return false;
        }
    }
    assert(pv.subrange(0, n as int) =~= bv);
    true
}

/// The text of `rel` pushed onto `base`: an absolute `rel` replaces `base`;
/// otherwise a separator goes between them unless `base` is empty or already
/// ends with one.
pub open spec fn joined(base: Seq<char>, rel: Seq<char>) -> Seq<char> {
    if rel.len() > 0 && rel[0] == '/' {
        rel
    } else if base.len() == 0 || base.last() == '/' {
        base + rel
    } else {
        base + seq!['/'] + rel
    }
}

/// Joins a path onto a base path.
pub fn join_path(base: &str, rel: &str) -> (r: String)
    ensures
        r@ == joined(base@, rel@),
{
    let b = chars_of(base);
    let t = chars_of(rel);
    let mut r = String::new();
    if t.len() > 0 && t[0] == '/' {
        push_chars(&mut r, &t);
        assert(Seq::<char>::empty() + t@ =~= t@);
        return r;
    }
    push_chars(&mut r, &b);
    if b.len() > 0 && b[b.len() - 1] != '/' {
        push_char(&mut r, '/');
    }
    push_chars(&mut r, &t);
    assert(r@ =~= joined(base@, rel@));
    r
}

/// The canonical path, if it lies within the canonical root; nothing
/// otherwise.
pub fn confine_to_root(canon_path: String, canon_root: &str) -> (r: Option<String>)
    ensures
        is_component_prefix(components(canon_root@), components(canon_path@)) ==> r == Some(canon_path),
        !is_component_prefix(components(canon_root@), components(canon_path@)) ==> r is None,
{
    if path_starts_with(canon_path.as_str(), canon_root) {
        Some(canon_path)
    } else {
        None
    }
}

/// A name that can stand as a normal component: not empty, without a
/// separator, and neither `.` nor `..`.
pub open spec fn valid_name(x: Seq<char>) -> bool {
    x.len() > 0 && !x.contains('/') && x != seq!['.'] && x != seq!['.', '.']
}

/// Whether every normal component among `parts` has a valid name.
pub open spec fn parts_valid(parts: Seq<PathPart>) -> bool {
    forall|i: int| 0 <= i < parts.len() && (#[trigger] parts[i]) is Normal ==> valid_name(parts[i]->Normal_0)
}

/// Names as normal components.
pub open spec fn normal_parts(names: Seq<Seq<char>>) -> Seq<PathPart> {
    names.map_values(|x: Seq<char>| PathPart::Normal(x))
}

proof fn lemma_parts_split(t: Seq<char>, u: Seq<char>, cur: Seq<char>)
    ensures
        parts_from(t + seq!['/'] + u, cur) == parts_from(t, cur) + parts_from(u, Seq::empty()),
    decreases t.len(),
{
    let s = t + seq!['/'] + u;
    if t.len() == 0 {
        assert(s.drop_first() =~= u);
        assert(parts_from(t, cur) == segment_parts(cur));
    } else {
        assert(s.drop_first() =~= t.drop_first() + seq!['/'] + u);
        assert(s[0] == t[0]);
        lemma_parts_split(t.drop_first(), u, if t[0] == '/' { Seq::empty() } else { cur.push(t[0]) });
        if t[0] == '/' {
            assert(parts_from(s, cur) =~= parts_from(t, cur) + parts_from(u, Seq::empty()));
        }
    }
}

proof fn lemma_parts_without_slash(x: Seq<char>, cur: Seq<char>)
    requires
        !x.contains('/'),
    ensures
        parts_from(x, cur) == segment_parts(cur + x),
    decreases x.len(),
{
    if x.len() == 0 {
        assert(cur + x =~= cur);
    } else {
        assert(x.contains(x[0]));
        assert(!x.drop_first().contains('/')) by {
            if x.drop_first().contains('/') {
                let k = choose|k: int| 0 <= k < x.drop_first().len() && x.drop_first()[k] == '/';
                assert(x[k + 1] == '/');
            }
        }
        lemma_parts_without_slash(x.drop_first(), cur.push(x[0]));
        assert(cur.push(x[0]) + x.drop_first() =~= cur + x);
    }
}

proof fn lemma_join_prefix(names: Seq<Seq<char>>)
    requires
        names.len() > 0,
    ensures
        join_with(names, seq!['/']).len() >= names[0].len(),
        join_with(names, seq!['/']).subrange(0, names[0].len() as int) == names[0],
    decreases names.len(),
{
    let j = join_with(names, seq!['/']);
    if names.len() == 1 {
        assert(j.subrange(0, names[0].len() as int) =~= names[0]);
    } else {
        lemma_join_prefix(names.drop_last());
        let i = join_with(names.drop_last(), seq!['/']);
        assert(j.subrange(0, names[0].len() as int) =~= i.subrange(0, names[0].len() as int));
    }
}

proof fn lemma_join_parts(names: Seq<Seq<char>>)
    requires
        forall|i: int| 0 <= i < names.len() ==> valid_name(#[trigger] names[i]),
    ensures
        parts_from(join_with(names, seq!['/']), Seq::empty()) == normal_parts(names),
    decreases names.len(),
{
    if names.len() == 0 {
        assert(normal_parts(names) =~= Seq::<PathPart>::empty());
    } else if names.len() == 1 {
        lemma_parts_without_slash(names[0], Seq::empty());
        assert(Seq::<char>::empty() + names[0] =~= names[0]);
        assert(normal_parts(names) =~= seq![PathPart::Normal(names[0])]);
    } else {
        let init = names.drop_last();
        assert forall|i: int| 0 <= i < init.len() implies valid_name(#[trigger] init[i]) by {
            assert(init[i] == names[i]);
        }
        lemma_join_parts(init);
        lemma_parts_split(join_with(init, seq!['/']), names.last(), Seq::empty());
        lemma_parts_without_slash(names.last(), Seq::empty());
        assert(Seq::<char>::empty() + names.last() =~= names.last());
        assert(normal_parts(names) =~= normal_parts(init) + seq![PathPart::Normal(names.last())]);
    }
}

proof fn lemma_render_components(n: NormalForm)
    requires
        forall|i: int| 0 <= i < n.names.len() ==> valid_name(#[trigger] n.names[i]),
    ensures
        components(render(n)) == (if n.absolute { seq![PathPart::Root] } else { Seq::empty() })
            + normal_parts(n.names),
{
    let j = join_with(n.names, seq!['/']);
    lemma_join_parts(n.names);
    if n.absolute {
        let s = seq!['/'] + j;
        assert(s[0] == '/');
        assert(s.drop_first() =~= j);
    } else {
        if n.names.len() == 0 {
            assert(j =~= Seq::<char>::empty());
            assert(normal_parts(n.names) =~= Seq::<PathPart>::empty());
            assert(Seq::<PathPart>::empty() + normal_parts(n.names) =~= normal_parts(n.names));
        } else {
            lemma_join_prefix(n.names);
            let first = n.names[0];
            assert(valid_name(first));
            assert(j[0] == first[0]);
            assert(first.contains(first[0]));
            assert(first[0] != '/');
            if first[0] == '.' {
                assert(first.len() >= 2) by {
                    if first.len() == 1 {
                        assert(first =~= seq!['.']);
                    }
                }
                assert(j[1] == first[1]);
                assert(first.contains(first[1]));
            }
            assert(!starts_with_cur_dir(j));
            assert(Seq::<PathPart>::empty() + normal_parts(n.names) =~= normal_parts(n.names));
        }
    }
}

proof fn lemma_normal_form_of_names(absolute: bool, names: Seq<Seq<char>>)
    ensures
        normal_form((if absolute { seq![PathPart::Root] } else { Seq::empty() }) + normal_parts(names))
            == (NormalForm { absolute: absolute, names: names }),
    decreases names.len(),
{
    let head = if absolute { seq![PathPart::Root] } else { Seq::<PathPart>::empty() };
    let ps = head + normal_parts(names);
    if names.len() == 0 {
        if absolute {
            assert(ps =~= seq![PathPart::Root]);
            assert(ps.drop_last() =~= Seq::<PathPart>::empty());
        } else {
            assert(ps =~= Seq::<PathPart>::empty());
        }
        assert(names =~= Seq::<Seq<char>>::empty());
    } else {
        lemma_normal_form_of_names(absolute, names.drop_last());
        assert(ps.drop_last() =~= head + normal_parts(names.drop_last()));
        assert(ps.last() == PathPart::Normal(names.last()));
        assert(names.drop_last().push(names.last()) =~= names);
    }
}

proof fn lemma_parts_from_valid(s: Seq<char>, cur: Seq<char>)
    requires
        !cur.contains('/'),
    ensures
        parts_valid(parts_from(s, cur)),
    decreases s.len(),
{
    if s.len() == 0 {
        assert(parts_valid(segment_parts(cur)));
    } else if s[0] == '/' {
        lemma_parts_from_valid(s.drop_first(), Seq::empty());
        let a = segment_parts(cur);
        let b = parts_from(s.drop_first(), Seq::empty());
        assert(parts_valid(a));
        assert forall|i: int| 0 <= i < (a + b).len() && (#[trigger] (a + b)[i]) is Normal implies valid_name(
            (a + b)[i]->Normal_0,
        ) by {
            if i >= a.len() {
                assert((a + b)[i] == b[i - a.len()]);
            }
        }
    } else {
        assert(!cur.push(s[0]).contains('/')) by {
            if cur.push(s[0]).contains('/') {
                let k = choose|k: int| 0 <= k < cur.push(s[0]).len() && cur.push(s[0])[k] == '/';
                if k < cur.len() {
                    assert(cur[k] == '/');
                }
            }
        }
        lemma_parts_from_valid(s.drop_first(), cur.push(s[0]));
    }
}

proof fn lemma_components_valid(s: Seq<char>)
    ensures
        parts_valid(components(s)),
{
    let e = Seq::<char>::empty();
    if s.len() > 0 && s[0] == '/' {
        lemma_parts_from_valid(s.drop_first(), e);
        let b = parts_from(s.drop_first(), e);
        assert forall|i: int| 0 <= i < (seq![PathPart::Root] + b).len() && (#[trigger] (seq![PathPart::Root] + b)[i]) is Normal implies valid_name(
            (seq![PathPart::Root] + b)[i]->Normal_0,
        ) by {
            assert((seq![PathPart::Root] + b)[i] == b[i - 1]);
        }
    } else if starts_with_cur_dir(s) {
        lemma_parts_from_valid(s.drop_first(), e);
        let b = parts_from(s.drop_first(), e);
        assert forall|i: int| 0 <= i < (seq![PathPart::Cur] + b).len() && (#[trigger] (seq![PathPart::Cur] + b)[i]) is Normal implies valid_name(
            (seq![PathPart::Cur] + b)[i]->Normal_0,
        ) by {
            assert((seq![PathPart::Cur] + b)[i] == b[i - 1]);
        }
    } else {
        lemma_parts_from_valid(s, e);
    }
}

proof fn lemma_normal_form_valid(parts: Seq<PathPart>)
    requires
        parts_valid(parts),
    ensures
        forall|i: int| 0 <= i < normal_form(parts).names.len() ==> valid_name(#[trigger] normal_form(parts).names[i]),
    decreases parts.len(),
{
    if parts.len() > 0 {
        let init = parts.drop_last();
        assert forall|i: int| 0 <= i < init.len() && (#[trigger] init[i]) is Normal implies valid_name(init[i]->Normal_0) by {
            assert(init[i] == parts[i]);
        }
        lemma_normal_form_valid(init);
        let acc = normal_form(init);
        let last = parts.last();
        assert(parts[parts.len() - 1] == last);
        let n = normal_form(parts);
        assert forall|i: int| 0 <= i < n.names.len() implies valid_name(#[trigger] n.names[i]) by {
            match last {
                PathPart::Normal(x) => {
                    if i < acc.names.len() {
                        assert(n.names[i] == acc.names[i]);
                    }
                },
                PathPart::Parent => {
                    if acc.names.len() > 0 {
                        assert(n.names[i] == acc.names[i]);
                    }
                },
                _ => {},
            }
        }
    }
}

/// Normalising an already normalised path changes nothing.
pub proof fn law_normalize_idempotent(path: Seq<char>)
    ensures
        normalized(normalized(path)) == normalized(path),
{
    let n = normal_form(components(path));
    lemma_components_valid(path);
    lemma_normal_form_valid(components(path));
    lemma_render_components(n);
    lemma_normal_form_of_names(n.absolute, n.names);
}

/// Whether every component is a name or a `..`.
pub open spec fn names_or_parents(parts: Seq<PathPart>) -> bool {
    forall|i: int| 0 <= i < parts.len() ==> (#[trigger] parts[i]) is Normal || parts[i] is Parent
}

proof fn lemma_parts_from_shape(s: Seq<char>, cur: Seq<char>)
    ensures
        names_or_parents(parts_from(s, cur)),
    decreases s.len(),
{
    if s.len() == 0 {
    } else if s[0] == '/' {
        lemma_parts_from_shape(s.drop_first(), Seq::empty());
        let a = segment_parts(cur);
        let b = parts_from(s.drop_first(), Seq::empty());
        assert forall|i: int| 0 <= i < (a + b).len() implies (#[trigger] (a + b)[i]) is Normal
            || (a + b)[i] is Parent by {
            if i >= a.len() {
                assert((a + b)[i] == b[i - a.len()]);
            }
        }
    } else {
        lemma_parts_from_shape(s.drop_first(), cur.push(s[0]));
    }
}

/// A path none of whose components is `.` or `..` keeps its components
/// under normalisation.
pub proof fn law_normalize_keeps_plain_path(path: Seq<char>)
    requires
        forall|i: int| 0 <= i < components(path).len() ==> !((#[trigger] components(path)[i]) is Cur)
            && !(components(path)[i] is Parent),
    ensures
        components(normalized(path)) == components(path),
{
    let cs = components(path);
    let e = Seq::<char>::empty();
    let absolute = path.len() > 0 && path[0] == '/';
    let head = if absolute { seq![PathPart::Root] } else { Seq::<PathPart>::empty() };
    let body = if absolute || starts_with_cur_dir(path) { parts_from(path.drop_first(), e) } else { parts_from(path, e) };
    lemma_parts_from_shape(if absolute || starts_with_cur_dir(path) { path.drop_first() } else { path }, e);
    if !absolute && starts_with_cur_dir(path) {
        assert(cs[0] is Cur);
    }
    assert(cs =~= head + body);
    assert forall|i: int| 0 <= i < body.len() implies (#[trigger] body[i]) is Normal by {
        assert(cs[i + head.len()] == body[i]);
    }
    let names = body.map_values(|q: PathPart| q->Normal_0);
    assert(normal_parts(names) =~= body);
    lemma_components_valid(path);
    assert forall|i: int| 0 <= i < names.len() implies valid_name(#[trigger] names[i]) by {
        assert(cs[i + head.len()] == body[i]);
    }
    lemma_normal_form_of_names(absolute, names);
    lemma_render_components(NormalForm { absolute: absolute, names: names });
}

/// After normalisation a path has no `.` or `..` components: at most a
/// leading root, then names.
pub proof fn law_normalized_has_only_names(path: Seq<char>)
    ensures
        forall|i: int| 0 <= i < components(normalized(path)).len() ==> {
            let c = #[trigger] components(normalized(path))[i];
            c is Normal || (c is Root && i == 0)
        },
{
    let n = normal_form(components(path));
    lemma_components_valid(path);
    lemma_normal_form_valid(components(path));
    lemma_render_components(n);
    let head = if n.absolute { seq![PathPart::Root] } else { Seq::<PathPart>::empty() };
    assert forall|i: int| 0 <= i < components(normalized(path)).len() implies {
        let c = #[trigger] components(normalized(path))[i];
        c is Normal || (c is Root && i == 0)
    } by {
        if i >= head.len() {
            assert((head + normal_parts(n.names))[i] == normal_parts(n.names)[i - head.len()]);
        }
    }
}

proof fn lemma_components_split(t: Seq<char>, rel: Seq<char>)
    requires
        t.len() > 0,
    ensures
        components(t + seq!['/'] + rel) == components(t) + parts_from(rel, Seq::empty()),
{
    let s = t + seq!['/'] + rel;
    assert(s[0] == t[0]);
    if t[0] == '/' || starts_with_cur_dir(t) {
        assert(s.drop_first() =~= t.drop_first() + seq!['/'] + rel);
        lemma_parts_split(t.drop_first(), rel, Seq::empty());
        if t[0] != '/' {
            if t.len() == 1 {
                assert(s[1] == '/');
            } else {
                assert(s[1] == t[1]);
            }
        }
    } else {
        if t.len() > 1 {
            assert(s[1] == t[1]);
        }
        assert(!starts_with_cur_dir(s));
        lemma_parts_split(t, rel, Seq::empty());
    }
}

/// Joining a relative path onto a non-empty base gives the base's components
/// followed by those of the relative path (a leading `.` of it dropped): the
/// result lies under the base as long as it is not normalised.
pub proof fn law_join_extends_base(base: Seq<char>, rel: Seq<char>)
    requires
        base.len() > 0,
        !(rel.len() > 0 && rel[0] == '/'),
    ensures
        components(joined(base, rel)) == components(base) + parts_from(rel, Seq::empty()),
        is_component_prefix(components(base), components(joined(base, rel))),
{
    let e = Seq::<char>::empty();
    if base.last() == '/' {
        let t = base.drop_last();
        assert(base =~= t + seq!['/'] + e);
        assert(joined(base, rel) =~= t + seq!['/'] + rel);
        if t.len() == 0 {
            assert(base =~= seq!['/']);
            assert(base.drop_first() =~= e);
            assert(joined(base, rel).drop_first() =~= rel);
            assert(parts_from(e, e) =~= Seq::<PathPart>::empty());
        } else {
            lemma_components_split(t, rel);
            lemma_components_split(t, e);
            assert(parts_from(e, e) =~= Seq::<PathPart>::empty());
            assert(components(t) + Seq::<PathPart>::empty() =~= components(t));
        }
    } else {
        assert(joined(base, rel) =~= base + seq!['/'] + rel);
        lemma_components_split(base, rel);
    }
    let b = components(base);
    let j = components(joined(base, rel));
    assert(j.subrange(0, b.len() as int) =~= b);
}

} // verus!
