//! File system paths as text, with the meaning `std::path` gives them on Unix:
//! components, parent, file name, extension, joining and lexical normalization.
use vstd::prelude::*;

use crate::text::{
    slice_of, split_acc, split_chars, split_spec, string_of, to_chars, views,
};

verus! {

/// A path component.
pub enum Comp {
    /// The root directory `/`.
    Root,
    /// A leading `.`.
    Cur,
    /// `..`.
    Parent,
    /// Any other name.
    Named(Seq<char>),
}

/// A path component, as executable data.
#[derive(Debug)]
pub enum PathComponent {
    RootDir,
    CurDir,
    ParentDir,
    Normal(Vec<char>),
}

impl View for PathComponent {
    type V = Comp;

    open spec fn view(&self) -> Comp {
        match self {
            PathComponent::RootDir => Comp::Root,
            PathComponent::CurDir => Comp::Cur,
            PathComponent::ParentDir => Comp::Parent,
            PathComponent::Normal(n) => Comp::Named(n@),
        }
    }
}

pub open spec fn comp_views(v: Seq<PathComponent>) -> Seq<Comp> {
    v.map_values(|c: PathComponent| c@)
}

/// The path starts at the root directory.
pub open spec fn has_root(p: Seq<char>) -> bool {
    p.len() > 0 && p[0] == '/'
}

/// The components named by the `/`-separated pieces `ps`: empty pieces and
/// `.` are dropped, `..` is the parent directory.
pub open spec fn body_comps(ps: Seq<Seq<char>>) -> Seq<Comp>
    decreases ps.len(),
{
    if ps.len() == 0 {
        seq![]
    } else {
        let r = body_comps(ps.drop_last());
        let p = ps.last();
        if p.len() == 0 || p == "."@ {
            r
        } else if p == ".."@ {
            r.push(Comp::Parent)
        } else {
            r.push(Comp::Named(p))
        }
    }
}

/// The components of `p` (`Path::components`): a root, or a leading `.`, then
/// the named pieces.
pub open spec fn comps(p: Seq<char>) -> Seq<Comp> {
    let ps = split_spec(p, '/');
    if has_root(p) {
        seq![Comp::Root] + body_comps(ps)
    } else if ps[0] == "."@ {
        seq![Comp::Cur] + body_comps(ps)
    } else {
        body_comps(ps)
    }
}

/// Two paths name the same place component by component (`PathBuf == PathBuf`).
pub open spec fn same_path(a: Seq<char>, b: Seq<char>) -> bool {
    comps(a) == comps(b)
}

/// The text of one component.
pub open spec fn comp_text(c: Comp) -> Seq<char> {
    match c {
        Comp::Root => "/"@,
        Comp::Cur => "."@,
        Comp::Parent => ".."@,
        Comp::Named(n) => n,
    }
}

/// `base` with `p` appended (`PathBuf::push`): an absolute `p` replaces
/// `base`, otherwise a separator is inserted when `base` does not end in one.
pub open spec fn path_join(base: Seq<char>, p: Seq<char>) -> Seq<char> {
    if has_root(p) {
        p
    } else if base.len() > 0 && base.last() != '/' {
        base + "/"@ + p
    } else {
        base + p
    }
}

/// The path built by pushing each component in turn onto an empty path.
pub open spec fn render(cs: Seq<Comp>) -> Seq<char>
    decreases cs.len(),
{
    if cs.len() == 0 {
        seq![]
    } else {
        path_join(render(cs.drop_last()), comp_text(cs.last()))
    }
}

/// Lexical normalization: `.` is skipped and `..` cancels the name before it
/// (it is kept when there is none).
pub open spec fn norm(cs: Seq<Comp>) -> Seq<Comp>
    decreases cs.len(),
{
    if cs.len() == 0 {
        seq![]
    } else {
        let r = norm(cs.drop_last());
        match cs.last() {
            Comp::Cur => r,
            Comp::Parent => if r.len() > 0 && r.last() is Named {
                r.drop_last()
            } else {
                r.push(Comp::Parent)
            },
            c => r.push(c),
        }
    }
}

/// The path with `.` and `..` collapsed without touching the file system.
pub open spec fn normalize_spec(p: Seq<char>) -> Seq<char> {
    render(norm(comps(p)))
}

/// The parent of `p` (`Path::parent`), spelled as its remaining components.
pub open spec fn parent_spec(p: Seq<char>) -> Option<Seq<char>> {
    let cs = comps(p);
    if cs.len() > 0 && !(cs.last() is Root) {
        Some(render(cs.drop_last()))
    } else {
        None
    }
}

/// The final name of `p` (`Path::file_name`).
pub open spec fn file_name_spec(p: Seq<char>) -> Option<Seq<char>> {
    let cs = comps(p);
    if cs.len() > 0 && cs.last() is Named {
        Some(cs.last()->Named_0)
    } else {
        None
    }
}

/// The index of the last `c` in `s`, or -1.
pub open spec fn last_index_of(s: Seq<char>, c: char) -> int
    decreases s.len(),
{
    if s.len() == 0 {
        -1
    } else if s.last() == c {
        s.len() - 1
    } else {
        last_index_of(s.drop_last(), c)
    }
}

/// The extension of a file name: what follows its last `.`, unless that
/// `.` starts the name or there is none.
pub open spec fn extension_of_name(n: Seq<char>) -> Option<Seq<char>> {
    let k = last_index_of(n, '.');
    if k > 0 {
        Some(n.skip(k + 1))
    } else {
        None
    }
}

/// The extension of `p` (`Path::extension`).
pub open spec fn extension_spec(p: Seq<char>) -> Option<Seq<char>> {
    match file_name_spec(p) {
        Some(n) => extension_of_name(n),
        None => None,
    }
}

proof fn lemma_last_index_bounds(s: Seq<char>, c: char)
    ensures
        -1 <= last_index_of(s, c) < s.len(),
        last_index_of(s, c) >= 0 ==> s[last_index_of(s, c)] == c,
    decreases s.len(),
{
    if s.len() > 0 {
        lemma_last_index_bounds(s.drop_last(), c);
    }
}

// ---------------------------------------------------------------------------
// Normalization is idempotent
// ---------------------------------------------------------------------------

/// `t` holds no `c`.
pub open spec fn lacks_char(t: Seq<char>, c: char) -> bool {
    forall|i: int| 0 <= i < t.len() ==> t[i] != c
}

/// A name that can stand as a component of its own: not empty, not `.` or
/// `..`, and without a separator.
pub open spec fn valid_name(n: Seq<char>) -> bool {
    n.len() > 0 && n != "."@ && n != ".."@ && lacks_char(n, '/')
}

/// Components as `comps` yields them: a root only first, names valid.
pub open spec fn parsed_comps(cs: Seq<Comp>) -> bool {
    forall|i: int|
        0 <= i < cs.len() ==> (#[trigger] cs[i] is Root ==> i == 0) && (cs[i] is Named ==> valid_name(
            cs[i]->Named_0,
        ))
}

/// Components as `norm` yields them: parsed, without `.`, and with no name
/// right before a `..`.
pub open spec fn normal_comps(cs: Seq<Comp>) -> bool {
    &&& parsed_comps(cs)
    &&& forall|i: int| 0 <= i < cs.len() ==> !(#[trigger] cs[i] is Cur)
    &&& forall|i: int| 0 < i < cs.len() ==> (#[trigger] cs[i] is Parent ==> !(cs[i - 1] is Named))
}

proof fn lemma_split_append(s: Seq<char>, t: Seq<char>, sep: char)
    requires
        lacks_char(t, sep),
    ensures
        split_acc(s + t, sep) == (split_acc(s, sep).0, split_acc(s, sep).1 + t),
    decreases t.len(),
{
    if t.len() == 0 {
        assert(s + t =~= s);
        assert(split_acc(s, sep).1 + t =~= split_acc(s, sep).1);
    } else {
        let t2 = t.drop_last();
        lemma_split_append(s, t2, sep);
        assert((s + t).drop_last() =~= s + t2);
        assert((s + t).last() == t.last());
        assert((split_acc(s, sep).1 + t2).push(t.last()) =~= split_acc(s, sep).1 + t);
    }
}

proof fn lemma_split_pieces(s: Seq<char>, sep: char)
    ensures
        lacks_char(split_acc(s, sep).1, sep),
        forall|k: int|
            0 <= k < split_acc(s, sep).0.len() ==> lacks_char(#[trigger] split_acc(s, sep).0[k], sep),
    decreases s.len(),
{
    if s.len() > 0 {
        lemma_split_pieces(s.drop_last(), sep);
        let (done, cur) = split_acc(s.drop_last(), sep);
        if s.last() == sep {
            assert forall|k: int| 0 <= k < done.push(cur).len() implies lacks_char(
                #[trigger] done.push(cur)[k],
                sep,
            ) by {
                if k < done.len() {
                    assert(done.push(cur)[k] == done[k]);
                }
            }
        } else {
            assert forall|i: int| 0 <= i < cur.push(s.last()).len() implies cur.push(s.last())[i]
                != sep by {
                if i < cur.len() {
                    assert(cur.push(s.last())[i] == cur[i]);
                }
            }
        }
    }
}

proof fn lemma_body_comps_parsed(ps: Seq<Seq<char>>)
    requires
        forall|k: int| 0 <= k < ps.len() ==> lacks_char(#[trigger] ps[k], '/'),
    ensures
        forall|i: int|
            0 <= i < body_comps(ps).len() ==> #[trigger] body_comps(ps)[i] is Parent || (
            body_comps(ps)[i] is Named && valid_name(body_comps(ps)[i]->Named_0)),
    decreases ps.len(),
{
    if ps.len() > 0 {
        lemma_body_comps_parsed(ps.drop_last());
        let r = body_comps(ps.drop_last());
        assert(ps.drop_last().len() == ps.len() - 1);
        assert forall|i: int| 0 <= i < body_comps(ps).len() implies #[trigger] body_comps(ps)[i] is Parent
            || (body_comps(ps)[i] is Named && valid_name(body_comps(ps)[i]->Named_0)) by {
            if i < r.len() {
                assert(body_comps(ps)[i] == r[i]);
            } else {
                assert(lacks_char(ps[ps.len() - 1], '/'));
            }
        }
    }
}

proof fn lemma_comps_parsed(p: Seq<char>)
    ensures
        parsed_comps(comps(p)),
{
    let ps = split_spec(p, '/');
    lemma_split_pieces(p, '/');
    assert forall|k: int| 0 <= k < ps.len() implies lacks_char(#[trigger] ps[k], '/') by {
        if k < split_acc(p, '/').0.len() {
            assert(ps[k] == split_acc(p, '/').0[k]);
        }
    }
    lemma_body_comps_parsed(ps);
    let b = body_comps(ps);
    if has_root(p) || ps[0] == "."@ {
        let head = if has_root(p) {
            Comp::Root
        } else {
            Comp::Cur
        };
        assert forall|i: int| 0 <= i < comps(p).len() implies (#[trigger] comps(p)[i] is Root ==> i == 0)
            && (comps(p)[i] is Named ==> valid_name(comps(p)[i]->Named_0)) by {
            if i > 0 {
                assert(comps(p)[i] == b[i - 1]);
            }
        }
    }
}

proof fn lemma_norm_normal(cs: Seq<Comp>)
    requires
        parsed_comps(cs),
    ensures
        normal_comps(norm(cs)),
        norm(cs).len() > 0 && norm(cs)[0] is Root ==> cs.len() > 0 && cs[0] is Root,
    decreases cs.len(),
{
    if cs.len() > 0 {
        let p = cs.drop_last();
        assert(parsed_comps(p)) by {
            assert forall|i: int| 0 <= i < p.len() implies (#[trigger] p[i] is Root ==> i == 0) && (
            p[i] is Named ==> valid_name(p[i]->Named_0)) by {
                assert(p[i] == cs[i]);
            }
        }
        lemma_norm_normal(p);
        let r = norm(p);
        let c = cs.last();
        assert(cs[cs.len() - 1] == c);
        match c {
            Comp::Cur => {},
            Comp::Parent => {
                if r.len() > 0 && r.last() is Named {
                    let q = r.drop_last();
                    assert forall|i: int| 0 <= i < q.len() implies q[i] == r[i] by {}
                    assert(normal_comps(q)) by {
                        assert forall|i: int| 0 <= i < q.len() implies (#[trigger] q[i] is Root ==> i
                            == 0) && (q[i] is Named ==> valid_name(q[i]->Named_0)) by {
                            assert(q[i] == r[i]);
                        }
                        assert forall|i: int| 0 <= i < q.len() implies !(#[trigger] q[i] is Cur) by {
                            assert(q[i] == r[i]);
                        }
                        assert forall|i: int| 0 < i < q.len() && #[trigger] q[i] is Parent implies !(q[i - 1] is Named) by {
                            assert(q[i] == r[i]);
                            assert(q[i - 1] == r[i - 1]);
                        }
                    }
                    if q.len() > 0 {
                        assert(q[0] == r[0]);
                    }
                } else {
                    let q = r.push(Comp::Parent);
                    assert forall|i: int| 0 <= i < r.len() implies q[i] == r[i] by {}
                    assert(normal_comps(q)) by {
                        assert forall|i: int| 0 <= i < q.len() implies (#[trigger] q[i] is Root ==> i
                            == 0) && (q[i] is Named ==> valid_name(q[i]->Named_0)) by {
                            if i < r.len() {
                                assert(q[i] == r[i]);
                            }
                        }
                        assert forall|i: int| 0 <= i < q.len() implies !(#[trigger] q[i] is Cur) by {
                            if i < r.len() {
                                assert(q[i] == r[i]);
                            }
                        }
                        assert forall|i: int| 0 < i < q.len() && #[trigger] q[i] is Parent implies !(q[i - 1] is Named) by {
                            assert(q[i - 1] == r[i - 1]);
                            if i < r.len() {
                                assert(q[i] == r[i]);
                            }
                        }
                    }
                    if r.len() > 0 {
                        assert(q[0] == r[0]);
                    }
                }
            },
            _ => {
                let q = r.push(c);
                if c is Root {
                    assert(cs.len() - 1 == 0);
                    assert(p.len() == 0);
                    assert(r.len() == 0);
                }
                assert(normal_comps(q)) by {
                    assert forall|i: int| 0 <= i < q.len() implies (#[trigger] q[i] is Root ==> i == 0)
                        && (q[i] is Named ==> valid_name(q[i]->Named_0)) by {
                        if i < r.len() {
                            assert(q[i] == r[i]);
                        }
                    }
                    assert forall|i: int| 0 <= i < q.len() implies !(#[trigger] q[i] is Cur) by {
                        if i < r.len() {
                            assert(q[i] == r[i]);
                        }
                    }
                    assert forall|i: int| 0 < i < q.len() && #[trigger] q[i] is Parent implies !(q[i - 1] is Named) by {
                        assert(q[i - 1] == r[i - 1]);
                        if i < r.len() {
                            assert(q[i] == r[i]);
                        }
                    }
                }
                if r.len() > 0 {
                    assert(q[0] == r[0]);
                }
            },
        }
    }
}

proof fn lemma_norm_fixed(x: Seq<Comp>)
    requires
        normal_comps(x),
    ensures
        norm(x) == x,
    decreases x.len(),
{
    if x.len() > 0 {
        let p = x.drop_last();
        assert(normal_comps(p)) by {
            assert forall|i: int| 0 <= i < p.len() implies (#[trigger] p[i] is Root ==> i == 0) && (
            p[i] is Named ==> valid_name(p[i]->Named_0)) by {
                assert(p[i] == x[i]);
            }
            assert forall|i: int| 0 <= i < p.len() implies !(#[trigger] p[i] is Cur) by {
                assert(p[i] == x[i]);
            }
            assert forall|i: int| 0 < i < p.len() && #[trigger] p[i] is Parent implies !(p[i - 1] is Named) by {
                assert(p[i] == x[i]);
                assert(p[i - 1] == x[i - 1]);
            }
        }
        lemma_norm_fixed(p);
        assert(x[x.len() - 1] == x.last());
        assert(!(x.last() is Cur));
        if x.last() is Parent && p.len() > 0 {
            assert(p.last() == x[x.len() - 2]);
        }
        assert(p.push(x.last()) =~= x);
    }
}

/// The components of a path after its root.
pub open spec fn body_of(cs: Seq<Comp>) -> Seq<Comp> {
    if cs.len() > 0 && cs[0] is Root {
        cs.skip(1)
    } else {
        cs
    }
}

proof fn lemma_comp_text(c: Comp)
    requires
        !(c is Cur),
        c is Named ==> valid_name(c->Named_0),
    ensures
        c is Root ==> comp_text(c) == seq!['/'],
        !(c is Root) ==> comp_text(c).len() > 0 && lacks_char(comp_text(c), '/') && !has_root(
            comp_text(c),
        ),
        !(c is Root) ==> body_comps(seq![comp_text(c)]) == seq![c],
        comp_text(c) != "."@,
{
    reveal_strlit("/");
    reveal_strlit(".");
    reveal_strlit("..");
    let t = comp_text(c);
    if c is Root {
        assert(t =~= seq!['/']);
        assert(t[0] != "."@[0]);
    } else {
        if c is Parent {
            assert(t.len() == 2 && t[0] == '.' && t[1] == '.');
            assert(lacks_char(t, '/'));
            assert(t != "."@);
        }
        let ps = seq![t];
        assert(ps.drop_last() =~= Seq::<Seq<char>>::empty());
        assert(ps.last() == t);
        assert(body_comps(ps.drop_last()) == Seq::<Comp>::empty());
        if c is Parent {
            assert(body_comps(ps) =~= seq![c]);
        } else {
            assert(c == Comp::Named(t));
            assert(body_comps(ps) =~= seq![c]);
        }
        assert(t[0] != '/');
    }
}

/// What splitting the rendering of `cs` gives back.
#[verifier::opaque]
pub open spec fn render_facts(cs: Seq<Comp>) -> bool {
    let x = render(cs);
    &&& x.len() == 0 <==> cs.len() == 0
    &&& has_root(x) <==> (cs.len() > 0 && cs[0] is Root)
    &&& x.len() > 0 ==> (x.last() == '/' <==> (cs.len() == 1 && cs[0] is Root))
    &&& body_comps(split_spec(x, '/')) == body_of(cs)
    &&& cs.len() > 0 && !(cs[0] is Root) ==> split_spec(x, '/')[0] == comp_text(cs[0])
}

proof fn lemma_split_single(t: Seq<char>)
    requires
        lacks_char(t, '/'),
    ensures
        split_spec(t, '/') == seq![t],
{
    lemma_split_append(Seq::<char>::empty(), t, '/');
    assert(Seq::<char>::empty() + t =~= t);
    assert(split_spec(t, '/') =~= seq![t]);
}

proof fn lemma_split_rooted(t: Seq<char>)
    requires
        lacks_char(t, '/'),
    ensures
        split_spec(seq!['/'] + t, '/') == seq![Seq::<char>::empty(), t],
{
    let x = seq!['/'];
    assert(split_acc(x, '/') == (seq![Seq::<char>::empty()], Seq::<char>::empty())) by {
        assert(x.drop_last() =~= Seq::<char>::empty());
        assert(split_acc(Seq::<char>::empty(), '/') == (Seq::<Seq<char>>::empty(), Seq::<char>::empty()));
        assert(Seq::<Seq<char>>::empty().push(Seq::<char>::empty()) =~= seq![Seq::<char>::empty()]);
    }
    lemma_split_append(x, t, '/');
    assert(Seq::<char>::empty() + t =~= t);
    assert(split_spec(x + t, '/') =~= seq![Seq::<char>::empty(), t]);
}

proof fn lemma_split_extend(x: Seq<char>, t: Seq<char>)
    requires
        lacks_char(t, '/'),
    ensures
        split_spec(x + "/"@ + t, '/') == split_spec(x, '/').push(t),
{
    reveal_strlit("/");
    assert(x + "/"@ =~= x.push('/'));
    assert(split_acc(x.push('/'), '/') == (split_acc(x, '/').0.push(split_acc(x, '/').1), Seq::<
        char,
    >::empty())) by {
        assert(x.push('/').drop_last() =~= x);
    }
    lemma_split_append(x.push('/'), t, '/');
    assert(Seq::<char>::empty() + t =~= t);
}

proof fn lemma_body_comps_push(ps: Seq<Seq<char>>, c: Comp)
    requires
        !(c is Root),
        !(c is Cur),
        c is Named ==> valid_name(c->Named_0),
    ensures
        body_comps(ps.push(comp_text(c))) == body_comps(ps).push(c),
{
    lemma_comp_text(c);
    reveal_strlit(".");
    reveal_strlit("..");
    assert(ps.push(comp_text(c)).drop_last() =~= ps);
    if c is Parent {
        assert(comp_text(c) != "."@);
    }
}

proof fn lemma_normal_prefix(cs: Seq<Comp>)
    requires
        normal_comps(cs),
        cs.len() > 0,
    ensures
        normal_comps(cs.drop_last()),
{
    let p = cs.drop_last();
    assert forall|i: int| 0 <= i < p.len() implies (#[trigger] p[i] is Root ==> i == 0) && (
    p[i] is Named ==> valid_name(p[i]->Named_0)) by {
        assert(p[i] == cs[i]);
    }
    assert forall|i: int| 0 <= i < p.len() implies !(#[trigger] p[i] is Cur) by {
        assert(p[i] == cs[i]);
    }
    assert forall|i: int| 0 < i < p.len() && #[trigger] p[i] is Parent implies !(p[i - 1] is Named) by {
        assert(p[i] == cs[i]);
        assert(p[i - 1] == cs[i - 1]);
    }
}

proof fn lemma_body_comps_empty_pieces()
    ensures
        body_comps(seq![Seq::<char>::empty()]) == Seq::<Comp>::empty(),
        body_comps(seq![Seq::<char>::empty(), Seq::<char>::empty()]) == Seq::<Comp>::empty(),
{
    let e = Seq::<char>::empty();
    let one = seq![e];
    let two = seq![e, e];
    assert(one.drop_last() =~= Seq::<Seq<char>>::empty());
    assert(one.last() == e);
    assert(body_comps(Seq::<Seq<char>>::empty()) == Seq::<Comp>::empty());
    assert(body_comps(one) == Seq::<Comp>::empty());
    assert(two.drop_last() =~= one);
    assert(two.last() == e);
}

proof fn lemma_render_root()
    ensures
        render_facts(seq![Comp::Root]),
{
    reveal(render_facts);
    reveal_strlit("/");
    let cs = seq![Comp::Root];
    assert(cs.drop_last() =~= Seq::<Comp>::empty());
    let t = comp_text(Comp::Root);
    assert(t =~= seq!['/']);
    assert(render(cs) == t);
    lemma_split_rooted(Seq::<char>::empty());
    assert(seq!['/'] + Seq::<char>::empty() =~= t);
    lemma_body_comps_empty_pieces();
    assert(cs[0] == Comp::Root);
    assert(body_of(cs) =~= Seq::<Comp>::empty());
    assert(render(cs)[0] == '/');
    assert(render(cs).last() == '/');
}

proof fn lemma_render_single(c: Comp)
    requires
        !(c is Root),
        !(c is Cur),
        c is Named ==> valid_name(c->Named_0),
    ensures
        render_facts(seq![c]),
{
    reveal(render_facts);
    let cs = seq![c];
    assert(cs.drop_last() =~= Seq::<Comp>::empty());
    lemma_comp_text(c);
    let t = comp_text(c);
    assert(render(cs.drop_last()) == Seq::<char>::empty());
    assert(!has_root(t));
    assert(Seq::<char>::empty() + t =~= t);
    assert(render(cs) =~= t);
    lemma_split_single(t);
    assert(cs[0] == c);
    assert(body_of(cs) =~= seq![c]);
    assert(render(cs).last() == t.last());
    assert(t.last() != '/');
}

proof fn lemma_render_after_root(c: Comp)
    requires
        !(c is Root),
        !(c is Cur),
        c is Named ==> valid_name(c->Named_0),
    ensures
        render_facts(seq![Comp::Root, c]),
{
    reveal(render_facts);
    reveal_strlit("/");
    let cs = seq![Comp::Root, c];
    let p = seq![Comp::Root];
    assert(cs.drop_last() =~= p);
    assert(p.drop_last() =~= Seq::<Comp>::empty());
    lemma_comp_text(c);
    let t = comp_text(c);
    let x = render(p);
    assert(x =~= seq!['/']);
    assert(render(cs) == x + t);
    lemma_split_rooted(t);
    let ps = seq![Seq::<char>::empty(), t];
    assert(ps =~= seq![Seq::<char>::empty()].push(t));
    lemma_body_comps_push(seq![Seq::<char>::empty()], c);
    lemma_body_comps_empty_pieces();
    assert(cs[0] == Comp::Root);
    assert(cs.skip(1) =~= seq![c]);
    assert(body_of(cs) =~= seq![c]);
    assert((x + t)[0] == '/');
    assert((x + t).last() == t.last());
}

proof fn lemma_render_extend(cs: Seq<Comp>)
    requires
        normal_comps(cs),
        cs.len() > 1,
        !(cs.len() == 2 && cs[0] is Root),
        render_facts(cs.drop_last()),
    ensures
        render_facts(cs),
{
    reveal(render_facts);
    let p = cs.drop_last();
    let c = cs.last();
    assert(cs[cs.len() - 1] == c);
    assert(p[0] == cs[0]);
    assert(!(c is Root));
    lemma_comp_text(c);
    let x = render(p);
    let t = comp_text(c);
    assert(x.len() > 0);
    assert(x.last() != '/');
    assert(render(cs) == x + "/"@ + t);
    lemma_split_extend(x, t);
    let sx = split_spec(x, '/');
    lemma_body_comps_push(sx, c);
    assert(body_of(cs) =~= body_of(p).push(c));
    if !(cs[0] is Root) {
        assert(sx.push(t)[0] == sx[0]);
    }
    assert((x + "/"@ + t)[0] == x[0]);
    assert((x + "/"@ + t).last() == t.last());
}

proof fn lemma_render_empty()
    ensures
        render_facts(Seq::<Comp>::empty()),
{
    reveal(render_facts);
    let cs = Seq::<Comp>::empty();
    assert(render(cs) == Seq::<char>::empty());
    assert(split_acc(Seq::<char>::empty(), '/') == (Seq::<Seq<char>>::empty(), Seq::<char>::empty()));
    assert(split_spec(render(cs), '/') =~= seq![Seq::<char>::empty()]);
    lemma_body_comps_empty_pieces();
}

proof fn lemma_render_short(cs: Seq<Comp>)
    requires
        normal_comps(cs),
        cs.len() <= 1 || (cs.len() == 2 && cs[0] is Root),
    ensures
        render_facts(cs),
{
    if cs.len() == 0 {
        lemma_render_empty();
        assert(cs =~= Seq::<Comp>::empty());
    } else if cs.len() == 1 {
        assert(cs =~= seq![cs[0]]);
        if cs[0] is Root {
            lemma_render_root();
        } else {
            lemma_render_single(cs[0]);
        }
    } else {
        assert(cs =~= seq![Comp::Root, cs[1]]);
        lemma_render_after_root(cs[1]);
    }
}

proof fn lemma_render_parse(cs: Seq<Comp>)
    requires
        normal_comps(cs),
    ensures
        render_facts(cs),
    decreases cs.len(),
{
    if cs.len() <= 1 || (cs.len() == 2 && cs[0] is Root) {
        lemma_render_short(cs);
    } else {
        lemma_normal_prefix(cs);
        lemma_render_parse(cs.drop_last());
        lemma_render_extend(cs);
    }
}

proof fn lemma_comps_render(cs: Seq<Comp>)
    requires
        normal_comps(cs),
    ensures
        comps(render(cs)) == cs,
{
    reveal_strlit(".");
    reveal_strlit("..");
    lemma_render_parse(cs);
    reveal(render_facts);
    let x = render(cs);
    let ps = split_spec(x, '/');
    if cs.len() > 0 {
        lemma_comp_text(cs[0]);
    }
    if has_root(x) {
        assert(seq![Comp::Root] + cs.skip(1) =~= cs);
    } else {
        if cs.len() == 0 {
            assert(x =~= Seq::<char>::empty());
            assert(ps =~= seq![Seq::<char>::empty()]);
            assert(ps[0] != "."@);
        } else {
            assert(ps[0] == comp_text(cs[0]));
        }
    }
}

/// Lexical normalization is idempotent: normalizing a normalized path
/// changes nothing. A normalized path has no `.` component, a root only
/// first, valid names, and no `..` right after a name (leading `..` stay).
pub proof fn lemma_normalize_idempotent(p: Seq<char>)
    ensures
        normalize_spec(normalize_spec(p)) == normalize_spec(p),
        normal_comps(comps(normalize_spec(p))),
{
    lemma_comps_parsed(p);
    lemma_norm_normal(comps(p));
    let n = norm(comps(p));
    lemma_comps_render(n);
    lemma_norm_fixed(n);
}

/// The components of `p`.
pub fn components(p: &Vec<char>) -> (r: Vec<PathComponent>)
    ensures
        comp_views(r@) == comps(p@),
{
    let ps = split_chars(p, '/');
    let mut r: Vec<PathComponent> = Vec::new();
    let rooted = p.len() > 0 && p[0] == '/';
    assert(views(ps@).len() > 0);
    assert(views(ps@)[0] == ps@[0]@);
    let dot = to_chars(".");
    let dotdot = to_chars("..");
    let lead_cur = !rooted && crate::text::chars_eq(&ps[0], &dot);
    if rooted {
        r.push(PathComponent::RootDir);
    } else if lead_cur {
        r.push(PathComponent::CurDir);
    }
    let ghost prefix = comp_views(r@);
    assert(prefix =~= if rooted {
        seq![Comp::Root]
    } else if lead_cur {
        seq![Comp::Cur]
    } else {
        seq![]
    });
    let mut i: usize = 0;
    while i < ps.len()
        invariant
            i <= ps.len(),
            dot@ == "."@,
            dotdot@ == ".."@,
            prefix.len() <= r@.len(),
            comp_views(r@) == prefix + body_comps(views(ps@).take(i as int)),
        decreases ps.len() - i,
    {
        let ghost before = r@;
        assert(views(ps@).take(i + 1).drop_last() =~= views(ps@).take(i as int));
        assert(views(ps@)[i as int] == ps@[i as int]@);
        let piece = &ps[i];
        if piece.len() == 0 || crate::text::chars_eq(piece, &dot) {
        } else if crate::text::chars_eq(piece, &dotdot) {
            r.push(PathComponent::ParentDir);
            assert(comp_views(r@) =~= comp_views(before).push(Comp::Parent));
        } else {
            let n = slice_of(piece, 0, piece.len());
            assert(n@ =~= piece@);
            r.push(PathComponent::Normal(n));
            assert(comp_views(r@) =~= comp_views(before).push(Comp::Named(piece@)));
        }
        i += 1;
    }
    assert(views(ps@).take(ps.len() as int) =~= views(ps@));
    r
}

/// The text of one component.
pub fn component_text(c: &PathComponent) -> (r: Vec<char>)
    ensures
        r@ == comp_text(c@),
{
    match c {
        PathComponent::RootDir => to_chars("/"),
        PathComponent::CurDir => to_chars("."),
        PathComponent::ParentDir => to_chars(".."),
        PathComponent::Normal(n) => {
            let m = slice_of(n, 0, n.len());
            assert(m@ =~= n@);
            m
        },
    }
}

/// `base` with `p` appended.
pub fn join(base: &Vec<char>, p: &Vec<char>) -> (r: Vec<char>)
    ensures
        r@ == path_join(base@, p@),
{
    if p.len() > 0 && p[0] == '/' {
        return slice_of(p, 0, p.len());
    }
    let mut r = slice_of(base, 0, base.len());
    if base.len() > 0 && base[base.len() - 1] != '/' {
        r.push('/');
    }
    let mut i: usize = 0;
    let ghost start = r@;
    while i < p.len()
        invariant
            i <= p.len(),
            r@ == start + p@.take(i as int),
        decreases p.len() - i,
    {
        r.push(p[i]);
        i += 1;
        assert(r@ =~= start + p@.take(i as int));
    }
    assert(p@.take(p.len() as int) =~= p@);
    proof {
        reveal_strlit("/");
    }
    assert(r@ =~= path_join(base@, p@));
    r
}

/// The path built from components `cs`.
pub fn render_components(cs: &Vec<PathComponent>) -> (r: Vec<char>)
    ensures
        r@ == render(comp_views(cs@)),
{
    let mut r: Vec<char> = Vec::new();
    let mut i: usize = 0;
    while i < cs.len()
        invariant
            i <= cs.len(),
            r@ == render(comp_views(cs@).take(i as int)),
        decreases cs.len() - i,
    {
        assert(comp_views(cs@).take(i + 1).drop_last() =~= comp_views(cs@).take(i as int));
        let t = component_text(&cs[i]);
        r = join(&r, &t);
        i += 1;
    }
    assert(comp_views(cs@).take(cs.len() as int) =~= comp_views(cs@));
    r
}

fn copy_component(c: &PathComponent) -> (r: PathComponent)
    ensures
        r@ == c@,
{
    match c {
        PathComponent::RootDir => PathComponent::RootDir,
        PathComponent::CurDir => PathComponent::CurDir,
        PathComponent::ParentDir => PathComponent::ParentDir,
        PathComponent::Normal(n) => {
            let m = slice_of(n, 0, n.len());
            assert(m@ =~= n@);
            PathComponent::Normal(m)
        },
    }
}

/// Lexical normalization of component list `cs`.
pub fn normalize_components(cs: &Vec<PathComponent>) -> (r: Vec<PathComponent>)
    ensures
        comp_views(r@) == norm(comp_views(cs@)),
{
    let mut parts: Vec<PathComponent> = Vec::new();
    let mut i: usize = 0;
    while i < cs.len()
        invariant
            i <= cs.len(),
            comp_views(parts@) == norm(comp_views(cs@).take(i as int)),
        decreases cs.len() - i,
    {
        assert(comp_views(cs@).take(i + 1).drop_last() =~= comp_views(cs@).take(i as int));
        let ghost before = parts@;
        match &cs[i] {
            PathComponent::CurDir => {},
            PathComponent::ParentDir => {
                let last_named = parts.len() > 0 && match &parts[parts.len() - 1] {
                    PathComponent::Normal(_) => true,
                    _ => false,
                };
                if last_named {
                    parts.pop();
                    assert(comp_views(parts@) =~= comp_views(before).drop_last());
                } else {
                    parts.push(PathComponent::ParentDir);
                    assert(comp_views(parts@) =~= comp_views(before).push(Comp::Parent));
                }
            },
            c => {
                let x = copy_component(c);
                parts.push(x);
                assert(comp_views(parts@) =~= comp_views(before).push(x@));
            },
        }
        i += 1;
    }
    assert(comp_views(cs@).take(cs.len() as int) =~= comp_views(cs@));
    parts
}

/// Collapses `.` and `..` components without touching the file system.
pub fn normalize_path(path: &str) -> (r: String)
    ensures
        r@ == normalize_spec(path@),
{
    let p = to_chars(path);
    let cs = components(&p);
    let n = normalize_components(&cs);
    string_of(&render_components(&n))
}

fn component_eq(a: &PathComponent, b: &PathComponent) -> (r: bool)
    ensures
        r == (a@ == b@),
{
    match (a, b) {
        (PathComponent::RootDir, PathComponent::RootDir) => true,
        (PathComponent::CurDir, PathComponent::CurDir) => true,
        (PathComponent::ParentDir, PathComponent::ParentDir) => true,
        (PathComponent::Normal(x), PathComponent::Normal(y)) => crate::text::chars_eq(x, y),
        _ => false,
    }
}

/// Whether two paths are equal component by component.
pub fn paths_equal(a: &Vec<char>, b: &Vec<char>) -> (r: bool)
    ensures
        r == same_path(a@, b@),
{
    let ca = components(a);
    let cb = components(b);
    assert(comp_views(ca@).len() == ca@.len());
    assert(comp_views(cb@).len() == cb@.len());
    if ca.len() != cb.len() {
        return false;
    }
    let mut i: usize = 0;
    while i < ca.len()
        invariant
            ca.len() == cb.len(),
            i <= ca.len(),
            comp_views(ca@) == comps(a@),
            comp_views(cb@) == comps(b@),
            forall|j: int| 0 <= j < i ==> comp_views(ca@)[j] == comp_views(cb@)[j],
        decreases ca.len() - i,
    {
        if !component_eq(&ca[i], &cb[i]) {
            assert(comp_views(ca@)[i as int] != comp_views(cb@)[i as int]);
            return false;
        }
        i += 1;
    }
    assert(comp_views(ca@) =~= comp_views(cb@));
    true
}

/// The parent of `p`.
pub fn parent(p: &Vec<char>) -> (r: Option<Vec<char>>)
    ensures
        r matches Some(q) ==> parent_spec(p@) == Some(q@),
        r is None ==> parent_spec(p@) is None,
{
    let cs = components(p);
    if cs.len() == 0 {
        return None;
    }
    match &cs[cs.len() - 1] {
        PathComponent::RootDir => None,
        _ => {
            let mut rest: Vec<PathComponent> = Vec::new();
            let mut i: usize = 0;
            while i + 1 < cs.len()
                invariant
                    i + 1 <= cs.len(),
                    comp_views(rest@) == comp_views(cs@).take(i as int),
                decreases cs.len() - i,
            {
                let ghost before = rest@;
                let x = copy_component(&cs[i]);
                rest.push(x);
                assert(rest@ == before.push(x));
                assert(comp_views(rest@) =~= comp_views(before).push(cs@[i as int]@));
                assert(comp_views(rest@) =~= comp_views(cs@).take(i + 1));
                i += 1;
            }
            assert(comp_views(cs@).take(i as int) =~= comp_views(cs@).drop_last());
            Some(render_components(&rest))
        },
    }
}

/// The final name of `p`.
pub fn file_name(p: &Vec<char>) -> (r: Option<Vec<char>>)
    ensures
        r matches Some(n) ==> file_name_spec(p@) == Some(n@),
        r is None ==> file_name_spec(p@) is None,
{
    let cs = components(p);
    if cs.len() == 0 {
        return None;
    }
    match &cs[cs.len() - 1] {
        PathComponent::Normal(n) => {
            let m = slice_of(n, 0, n.len());
            assert(m@ =~= n@);
            Some(m)
        },
        _ => None,
    }
}

/// The final name of `p`, or the empty name.
pub fn file_name_or_empty(p: &Vec<char>) -> (r: Vec<char>)
    ensures
        r@ == match file_name_spec(p@) {
            Some(n) => n,
            None => seq![],
        },
{
    match file_name(p) {
        Some(n) => n,
        None => Vec::new(),
    }
}

/// The extension of `p`.
pub fn extension(p: &Vec<char>) -> (r: Option<Vec<char>>)
    ensures
        r matches Some(e) ==> extension_spec(p@) == Some(e@),
        r is None ==> extension_spec(p@) is None,
{
    let n = match file_name(p) {
        Some(n) => n,
        None => return None,
    };
    let mut k: usize = n.len();
    assert(n@.take(k as int) =~= n@);
    while k > 0 && n[k - 1] != '.'
        invariant
            k <= n.len(),
            last_index_of(n@, '.') == last_index_of(n@.take(k as int), '.'),
        decreases k,
    {
        assert(n@.take(k as int).drop_last() =~= n@.take(k - 1));
        k -= 1;
    }
    proof {
        lemma_last_index_bounds(n@.take(k as int), '.');
    }
    if k <= 1 {
        None
    } else {
        Some(slice_of(&n, k, n.len()))
    }
}

} // verus!
