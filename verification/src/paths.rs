use vstd::prelude::*;
use crate::text::{chars_eq, chars_of, string_of, string_views, views};

verus! {

/// `base` with the relative or absolute `name` pushed onto it, as a Unix
/// `PathBuf::push` does: an absolute name replaces the path, a relative one is
/// appended after a `/` unless the path is empty or already ends with one.
pub open spec fn path_join(base: Seq<char>, name: Seq<char>) -> Seq<char> {
    if name.len() > 0 && name[0] == '/' {
        name
    } else if base.len() == 0 || base.last() == '/' {
        base + name
    } else {
        base + seq!['/'] + name
    }
}

/// Joins `name` onto the path `base`.
pub fn join_path(base: &str, name: &str) -> (r: String)
    ensures
        r@ == path_join(base@, name@),
{
    let b = chars_of(base);
    let n = chars_of(name);
    if n.len() > 0 && n[0] == '/' {
        return name.to_owned();
    }
    let mut s = base.to_owned();
    if b.len() > 0 && b[b.len() - 1] != '/' {
        s.append("/");
        proof {
            reveal_strlit("/");
        }
    }
    s.append(name);
    s
}

/// The pieces of a path between its `/` separators, empty ones included;
/// `cur` is the piece being read.
pub open spec fn pieces_from(s: Seq<char>, cur: Seq<char>) -> Seq<Seq<char>>
    decreases s.len(),
{
    if s.len() == 0 {
        seq![cur]
    } else if s[0] == '/' {
        seq![cur] + pieces_from(s.drop_first(), seq![])
    } else {
        pieces_from(s.drop_first(), cur.push(s[0]))
    }
}

/// The pieces between the `/` separators of `p`.
pub open spec fn pieces(p: Seq<char>) -> Seq<Seq<char>> {
    pieces_from(p, seq![])
}

/// The pieces that name a component: not empty and not `.`.
pub open spec fn kept(ps: Seq<Seq<char>>) -> Seq<Seq<char>>
    decreases ps.len(),
{
    if ps.len() == 0 {
        seq![]
    } else if ps[0].len() == 0 || ps[0] == "."@ {
        kept(ps.drop_first())
    } else {
        seq![ps[0]] + kept(ps.drop_first())
    }
}

/// The components of a Unix path, as `Path::components` gives them, each
/// written as `Component::as_os_str` writes it: `/` for the root, `.` for a
/// leading current directory, `..` for a parent, else the name. Repeated
/// separators, `.` after the start and a trailing `/` are not components.
pub open spec fn path_components(p: Seq<char>) -> Seq<Seq<char>> {
    if p.len() > 0 && p[0] == '/' {
        seq!["/"@] + kept(pieces(p))
    } else if pieces(p)[0] == "."@ {
        seq!["."@] + kept(pieces(p).drop_first())
    } else {
        kept(pieces(p))
    }
}

/// Whether two paths are equal as `Path`'s `==` compares them: component by
/// component.
pub open spec fn spec_same_path(a: Seq<char>, b: Seq<char>) -> bool {
    path_components(a) == path_components(b)
}

/// Whether `path` starts with the whole components of `base`, as
/// `Path::starts_with` decides it.
pub open spec fn spec_path_starts_with(path: Seq<char>, base: Seq<char>) -> bool {
    path_components(base).is_prefix_of(path_components(path))
}

/// The final component of a path when it is a name, as `Path::file_name`
/// gives it: none for an empty path, the root, `.` or `..`.
pub open spec fn spec_path_file_name(path: Seq<char>) -> Option<Seq<char>> {
    let c = path_components(path);
    if c.len() > 0 && c.last() != "/"@ && c.last() != "."@ && c.last() != ".."@ {
        Some(c.last())
    } else {
        None
    }
}

/// The pieces of a path hold no `/`.
pub proof fn lemma_pieces_have_no_slash(s: Seq<char>, cur: Seq<char>)
    requires
        !cur.contains('/'),
    ensures
        pieces_from(s, cur).len() > 0,
        forall|k: int|
            0 <= k < pieces_from(s, cur).len() ==> !(#[trigger] pieces_from(s, cur)[k]).contains(
                '/',
            ),
    decreases s.len(),
{
    if s.len() == 0 {
    } else if s[0] == '/' {
        lemma_pieces_have_no_slash(s.drop_first(), seq![]);
        let r = pieces_from(s.drop_first(), seq![]);
        assert forall|k: int| 0 <= k < pieces_from(s, cur).len() implies !(#[trigger] pieces_from(
            s,
            cur,
        )[k]).contains('/') by {
            if k > 0 {
                assert(pieces_from(s, cur)[k] == r[k - 1]);
            }
        }
    } else {
        assert(!cur.push(s[0]).contains('/')) by {
            if cur.push(s[0]).contains('/') {
                let j = choose|j: int| 0 <= j < cur.push(s[0]).len() && cur.push(s[0])[j] == '/';
                if j < cur.len() {
                    assert(cur[j] == '/');
                }
            }
        }
        lemma_pieces_have_no_slash(s.drop_first(), cur.push(s[0]));
    }
}

proof fn lemma_kept_are_names(ps: Seq<Seq<char>>)
    requires
        forall|k: int| 0 <= k < ps.len() ==> !(#[trigger] ps[k]).contains('/'),
    ensures
        forall|k: int|
            0 <= k < kept(ps).len() ==> (#[trigger] kept(ps)[k]).len() > 0 && !kept(ps)[k].contains(
                '/',
            ) && kept(ps)[k] != "."@,
    decreases ps.len(),
{
    if ps.len() > 0 {
        assert forall|k: int| 0 <= k < ps.drop_first().len() implies !(
        #[trigger] ps.drop_first()[k]).contains('/') by {
            assert(ps.drop_first()[k] == ps[k + 1]);
        }
        lemma_kept_are_names(ps.drop_first());
        let r = kept(ps.drop_first());
        if !(ps[0].len() == 0 || ps[0] == "."@) {
            assert forall|k: int| 0 <= k < kept(ps).len() implies (#[trigger] kept(ps)[k]).len()
                > 0 && !kept(ps)[k].contains('/') && kept(ps)[k] != "."@ by {
                if k > 0 {
                    assert(kept(ps)[k] == r[k - 1]);
                }
            }
        }
    }
}

/// A file name is one component: nonempty and without `/`.
proof fn lemma_file_name_is_component(path: Seq<char>)
    ensures
        spec_path_file_name(path) matches Some(n) ==> n.len() > 0 && !n.contains('/'),
{
    reveal_strlit("/");
    reveal_strlit(".");
    reveal_strlit("..");
    lemma_pieces_have_no_slash(path, seq![]);
    let ps = pieces(path);
    lemma_kept_are_names(ps);
    assert forall|k: int| 0 <= k < ps.drop_first().len() implies !(
    #[trigger] ps.drop_first()[k]).contains('/') by {
        assert(ps.drop_first()[k] == ps[k + 1]);
    }
    lemma_kept_are_names(ps.drop_first());
    let c = path_components(path);
    if c.len() > 0 && c.last() != "/"@ && c.last() != "."@ && c.last() != ".."@ {
        let k = c.len() - 1;
        if path.len() > 0 && path[0] == '/' {
            assert(c[k] == kept(ps)[k - 1]);
        } else if ps[0] == "."@ {
            assert(c[k] == kept(ps.drop_first())[k - 1]);
        } else {
            assert(c[k] == kept(ps)[k]);
        }
    }
}

/// `Path` equality is an equivalence: every path is the same path as itself,
/// and sameness is symmetric and transitive.
pub proof fn lemma_same_path_is_equivalence(a: Seq<char>, b: Seq<char>, c: Seq<char>)
    ensures
        spec_same_path(a, a),
        spec_same_path(a, b) ==> spec_same_path(b, a),
        spec_same_path(a, b) && spec_same_path(b, c) ==> spec_same_path(a, c),
        spec_path_starts_with(a, a),
{
}

proof fn lemma_pieces_slash_end(s: Seq<char>, cur: Seq<char>)
    ensures
        pieces_from(s + seq!['/'], cur) == pieces_from(s, cur) + seq![Seq::<char>::empty()],
    decreases s.len(),
{
    let e = seq![Seq::<char>::empty()];
    if s.len() == 0 {
        assert(seq!['/'].drop_first() =~= Seq::<char>::empty());
        assert((s + seq!['/']) =~= seq!['/']);
        assert(pieces_from(Seq::<char>::empty(), seq![]) == e);
        assert(pieces_from(seq!['/'], cur) == seq![cur] + e);
        assert(pieces_from(s, cur) == seq![cur]);
        assert(pieces_from(s + seq!['/'], cur) =~= pieces_from(s, cur) + e);
    } else {
        assert((s + seq!['/']).drop_first() =~= s.drop_first() + seq!['/']);
        assert((s + seq!['/'])[0] == s[0]);
        if s[0] == '/' {
            lemma_pieces_slash_end(s.drop_first(), seq![]);
            assert(seq![cur] + (pieces_from(s.drop_first(), seq![]) + e) =~= seq![cur]
                + pieces_from(s.drop_first(), seq![]) + e);
            assert(pieces_from(s + seq!['/'], cur) == seq![cur] + pieces_from(
                s.drop_first() + seq!['/'],
                seq![],
            ));
            assert(pieces_from(s + seq!['/'], cur) =~= pieces_from(s, cur) + e);
        } else {
            lemma_pieces_slash_end(s.drop_first(), cur.push(s[0]));
            assert(pieces_from(s + seq!['/'], cur) == pieces_from(
                s.drop_first() + seq!['/'],
                cur.push(s[0]),
            ));
        }
    }
}

proof fn lemma_kept_ignores_empty_end(ps: Seq<Seq<char>>)
    ensures
        kept(ps + seq![Seq::<char>::empty()]) == kept(ps),
    decreases ps.len(),
{
    let e = seq![Seq::<char>::empty()];
    if ps.len() == 0 {
        assert(ps + e =~= e);
        assert(e.drop_first() =~= Seq::<Seq<char>>::empty());
        assert(kept(Seq::<Seq<char>>::empty()) == Seq::<Seq<char>>::empty());
        assert(e[0].len() == 0);
        assert(kept(e) == kept(e.drop_first()));
    } else {
        assert((ps + e).drop_first() =~= ps.drop_first() + e);
        assert((ps + e)[0] == ps[0]);
        lemma_kept_ignores_empty_end(ps.drop_first());
        if ps[0].len() == 0 || ps[0] == "."@ {
            assert(kept(ps + e) == kept(ps.drop_first() + e));
        } else {
            assert(kept(ps + e) == seq![ps[0]] + kept(ps.drop_first() + e));
        }
    }
}

/// A trailing `/` does not change a nonempty path: `p/` and `p` are the same
/// path, so a link written with a trailing slash still points at `p`.
pub proof fn lemma_trailing_slash_same_path(p: Seq<char>)
    requires
        p.len() > 0,
    ensures
        spec_same_path(p + seq!['/'], p),
{
    let q = p + seq!['/'];
    lemma_pieces_slash_end(p, seq![]);
    lemma_kept_ignores_empty_end(pieces(p));
    lemma_pieces_have_no_slash(p, seq![]);
    assert(q[0] == p[0]);
    let e = seq![Seq::<char>::empty()];
    assert(pieces(q)[0] == pieces(p)[0]);
    assert(pieces(q).drop_first() =~= pieces(p).drop_first() + e);
    lemma_kept_ignores_empty_end(pieces(p).drop_first());
}

/// Splits a path at its `/` separators, as `pieces` does.
fn split_pieces(s: &Vec<char>) -> (r: Vec<Vec<char>>)
    ensures
        views(r@) == pieces(s@),
{
    let mut out: Vec<Vec<char>> = Vec::new();
    let mut cur: Vec<char> = Vec::new();
    let mut i: usize = 0;
    assert(s@.skip(0) =~= s@);
    assert(views(out@) + pieces(s@) =~= pieces(s@));
    while i < s.len()
        invariant
            i <= s.len(),
            views(out@) + pieces_from(s@.skip(i as int), cur@) == pieces(s@),
        decreases s.len() - i,
    {
        let ghost rest = s@.skip(i as int);
        assert(rest.drop_first() =~= s@.skip(i + 1));
        assert(rest[0] == s@[i as int]);
        let c = s[i];
        let ghost before = views(out@);
        let ghost cur0 = cur@;
        if c == '/' {
            out.push(cur);
            assert(views(out@) =~= before + seq![cur0]);
            cur = Vec::new();
            assert(before + pieces_from(rest, cur0) =~= views(out@) + pieces_from(
                s@.skip(i + 1),
                cur@,
            ));
        } else {
            cur.push(c);
        }
        i = i + 1;
    }
    assert(s@.skip(i as int) =~= Seq::<char>::empty());
    let ghost before = views(out@);
    out.push(cur);
    assert(views(out@) =~= before + seq![cur@]);
    out
}

/// The pieces from `start` on that name components, as `kept` picks them.
fn keep_names(ps: &Vec<Vec<char>>, start: usize) -> (r: Vec<Vec<char>>)
    requires
        start <= ps.len(),
    ensures
        views(r@) == kept(views(ps@).skip(start as int)),
{
    let dot = chars_of(".");
    let mut out: Vec<Vec<char>> = Vec::new();
    let mut i: usize = start;
    let ghost all = views(ps@).skip(start as int);
    assert(views(out@) + kept(all) =~= kept(all));
    assert(views(ps@).skip(i as int) == all);
    while i < ps.len()
        invariant
            start <= i <= ps.len(),
            dot@ == "."@,
            all == views(ps@).skip(start as int),
            views(out@) + kept(views(ps@).skip(i as int)) == kept(all),
        decreases ps.len() - i,
    {
        let ghost rest = views(ps@).skip(i as int);
        assert(rest.drop_first() =~= views(ps@).skip(i + 1));
        assert(rest[0] == ps@[i as int]@);
        let ghost before = views(out@);
        if ps[i].len() == 0 || chars_eq(&ps[i], &dot) {
        } else {
            out.push(ps[i].clone());
            assert(views(out@) =~= before + seq![rest[0]]);
            assert(before + kept(rest) =~= views(out@) + kept(views(ps@).skip(i + 1)));
        }
        i = i + 1;
    }
    assert(views(ps@).skip(i as int) =~= Seq::<Seq<char>>::empty());
    assert(views(out@) + seq![] =~= views(out@));
    out
}

/// The components of the path `p`, as `path_components` gives them.
pub fn components(p: &str) -> (r: Vec<Vec<char>>)
    ensures
        views(r@) == path_components(p@),
{
    let s = chars_of(p);
    let ps = split_pieces(&s);
    proof {
        lemma_pieces_have_no_slash(s@, seq![]);
    }
    let dot = chars_of(".");
    if s.len() > 0 && s[0] == '/' {
        let mut r = vec![chars_of("/")];
        let mut rest = keep_names(&ps, 0);
        assert(views(ps@).skip(0) =~= views(ps@));
        let ghost head = views(r@);
        r.append(&mut rest);
        assert(views(r@) =~= head + kept(pieces(p@)));
        r
    } else if chars_eq(&ps[0], &dot) {
        let mut r = vec![chars_of(".")];
        let mut rest = keep_names(&ps, 1);
        assert(views(ps@).skip(1) =~= pieces(p@).drop_first());
        let ghost head = views(r@);
        r.append(&mut rest);
        assert(views(r@) =~= head + kept(pieces(p@).drop_first()));
        r
    } else {
        let r = keep_names(&ps, 0);
        assert(views(ps@).skip(0) =~= views(ps@));
        r
    }
}

/// Whether two lists of components are equal.
fn same_components(a: &Vec<Vec<char>>, b: &Vec<Vec<char>>) -> (r: bool)
    ensures
        r == (views(a@) == views(b@)),
{
    if a.len() != b.len() {
        assert(views(a@).len() != views(b@).len());
        return false;
    }
    let mut i: usize = 0;
    while i < a.len()
        invariant
            i <= a.len(),
            a.len() == b.len(),
            forall|k: int| 0 <= k < i ==> views(a@)[k] == views(b@)[k],
        decreases a.len() - i,
    {
        if !chars_eq(&a[i], &b[i]) {
            assert(views(a@)[i as int] != views(b@)[i as int]);
            return false;
        }
        i = i + 1;
    }
    assert(views(a@) =~= views(b@));
    true
}

/// `Path`'s `==`: whether two paths have the same components.
pub fn same_path(a: &str, b: &str) -> (r: bool)
    ensures
        r == spec_same_path(a@, b@),
{
    same_components(&components(a), &components(b))
}

/// `Path::starts_with`: whether the components of `base` begin those of
/// `path`.
pub fn path_starts_with(path: &str, base: &str) -> (r: bool)
    ensures
        r == spec_path_starts_with(path@, base@),
{
    let cp = components(path);
    let cb = components(base);
    if cb.len() > cp.len() {
        return false;
    }
    let mut i: usize = 0;
    while i < cb.len()
        invariant
            i <= cb.len() <= cp.len(),
            views(cp@) == path_components(path@),
            views(cb@) == path_components(base@),
            forall|k: int| 0 <= k < i ==> views(cp@)[k] == views(cb@)[k],
        decreases cb.len() - i,
    {
        if !chars_eq(&cp[i], &cb[i]) {
            assert(views(cp@).subrange(0, cb.len() as int)[i as int] != views(cb@)[i as int]);
            assert(views(cp@).subrange(0, cb.len() as int) != views(cb@));
            assert(!views(cb@).is_prefix_of(views(cp@)));
            return false;
        }
        i = i + 1;
    }
    assert(views(cp@).subrange(0, cb.len() as int) =~= views(cb@));
    true
}

/// `Path::file_name`: the last component of the path when it is a name,
/// which is nonempty and holds no `/`.
pub fn path_file_name(path: &str) -> (r: Option<String>)
    ensures
        match r {
            Some(s) => spec_path_file_name(path@) == Some(s@),
            None => spec_path_file_name(path@) is None,
        },
        r matches Some(s) ==> s@.len() > 0 && !s@.contains('/'),
{
    proof {
        lemma_file_name_is_component(path@);
    }
    let c = components(path);
    let n = c.len();
    if n == 0 {
        return None;
    }
    let last = &c[n - 1];
    assert(views(c@)[n - 1] == last@);
    if chars_eq(last, &chars_of("/")) || chars_eq(last, &chars_of(".")) || chars_eq(
        last,
        &chars_of(".."),
    ) {
        None
    } else {
        Some(string_of(last))
    }
}

/// Where the body of a Unix path begins, after the root `/` or a leading
/// current directory (`.` alone or followed by `/`), as `Path`'s components
/// are read.
pub open spec fn body_start(p: Seq<char>) -> int {
    if p.len() > 0 && p[0] == '/' {
        1
    } else if p.len() > 0 && p[0] == '.' && (p.len() == 1 || p[1] == '/') {
        1
    } else {
        0
    }
}

/// The position of the last `/` in `p[lo..i]`, or `lo - 1` when there is none.
pub open spec fn last_sep(p: Seq<char>, lo: int, i: int) -> int
    decreases i - lo,
{
    if i <= lo {
        lo - 1
    } else if p[i - 1] == '/' {
        i - 1
    } else {
        last_sep(p, lo, i - 1)
    }
}

/// Where `p[..i]` ends once its last component, with the `/` before it, is
/// taken off (never before `lo`).
pub open spec fn end_before(p: Seq<char>, lo: int, i: int) -> int {
    let j = last_sep(p, lo, i);
    if j >= lo {
        j
    } else {
        lo
    }
}

/// A piece that is no component: empty, or `.` after the start.
pub open spec fn skippable(c: Seq<char>) -> bool {
    c.len() == 0 || c == "."@
}

/// The last `/` of `p[lo..i]` lies in that range.
pub proof fn lemma_last_sep_bounds(p: Seq<char>, lo: int, i: int)
    requires
        lo <= i,
    ensures
        lo - 1 <= last_sep(p, lo, i) < i,
        last_sep(p, lo, i) >= lo ==> p[last_sep(p, lo, i)] == '/',
    decreases i - lo,
{
    if i > lo && p[i - 1] != '/' {
        lemma_last_sep_bounds(p, lo, i - 1);
    }
}

/// Where `p[..i]` ends once trailing empty and `.` pieces are taken off,
/// never before `lo`.
pub open spec fn trim_back(p: Seq<char>, lo: int, i: int) -> int
    decreases i - lo,
{
    if i <= lo {
        i
    } else if skippable(p.subrange(last_sep(p, lo, i) + 1, i)) {
        proof {
            lemma_last_sep_bounds(p, lo, i);
        }
        trim_back(p, lo, end_before(p, lo, i))
    } else {
        i
    }
}

/// Trimming `p[..i]` never goes before `lo` or past `i`.
pub proof fn lemma_trim_back_bounds(p: Seq<char>, lo: int, i: int)
    requires
        lo <= i,
    ensures
        lo <= trim_back(p, lo, i) <= i,
    decreases i - lo,
{
    if i > lo {
        lemma_last_sep_bounds(p, lo, i);
        if skippable(p.subrange(last_sep(p, lo, i) + 1, i)) {
            lemma_trim_back_bounds(p, lo, end_before(p, lo, i));
        }
    }
}

/// The length of `Path::parent` of `p`, which is always a prefix of `p`:
/// the path without its last component and the separators and `.` pieces
/// around it; `""` for a lone current directory; none for an empty path or
/// the root.
pub open spec fn parent_len(p: Seq<char>) -> Option<int> {
    let lo = body_start(p);
    let i0 = trim_back(p, lo, p.len() as int);
    if i0 > lo {
        Some(trim_back(p, lo, end_before(p, lo, i0)))
    } else if lo == 1 && p[0] == '.' {
        Some(0)
    } else {
        None
    }
}

/// The parent of a path is a shorter prefix of it.
pub proof fn lemma_parent_shorter(p: Seq<char>)
    ensures
        parent_len(p) matches Some(k) ==> 0 <= k < p.len(),
{
    let lo = body_start(p);
    lemma_trim_back_bounds(p, lo, p.len() as int);
    let i0 = trim_back(p, lo, p.len() as int);
    if i0 > lo {
        lemma_last_sep_bounds(p, lo, i0);
        lemma_trim_back_bounds(p, lo, end_before(p, lo, i0));
    }
}

/// `Path::ancestors`: `p`, its parent, the parent's parent, and so on while
/// there is a parent.
pub open spec fn path_ancestors(p: Seq<char>) -> Seq<Seq<char>>
    decreases p.len(),
{
    proof {
        lemma_parent_shorter(p);
    }
    seq![p] + match parent_len(p) {
        Some(k) => path_ancestors(p.subrange(0, k)),
        None => seq![],
    }
}

/// Every ancestor of `p` is a prefix of `p`, and the first one is `p`.
pub proof fn lemma_ancestors_are_prefixes(p: Seq<char>)
    ensures
        path_ancestors(p).len() > 0,
        path_ancestors(p)[0] == p,
        forall|k: int|
            0 <= k < path_ancestors(p).len() ==> (#[trigger] path_ancestors(p)[k]).is_prefix_of(p),
    decreases p.len(),
{
    lemma_parent_shorter(p);
    assert(p.subrange(0, p.len() as int) =~= p);
    match parent_len(p) {
        Some(k) => {
            let q = p.subrange(0, k);
            lemma_ancestors_are_prefixes(q);
            let r = path_ancestors(q);
            assert forall|m: int| 0 <= m < path_ancestors(p).len() implies (
            #[trigger] path_ancestors(p)[m]).is_prefix_of(p) by {
                if m > 0 {
                    let a = r[m - 1];
                    assert(path_ancestors(p)[m] == a);
                    assert(a.is_prefix_of(q));
                    assert(p.subrange(0, a.len() as int) =~= q.subrange(0, a.len() as int));
                }
            }
        },
        None => {},
    }
}

/// The start of the last piece of `p[lo..i]` and where `p[..i]` ends
/// without it, for `lo < i`.
fn back_piece(p: &Vec<char>, lo: usize, i: usize) -> (r: (usize, usize))
    requires
        lo < i <= p.len(),
    ensures
        r.0 == last_sep(p@, lo as int, i as int) + 1,
        r.1 == end_before(p@, lo as int, i as int),
{
    let mut k = i;
    while k > lo
        invariant
            lo <= k <= i,
            i <= p.len(),
            last_sep(p@, lo as int, k as int) == last_sep(p@, lo as int, i as int),
        decreases k,
    {
        if p[k - 1] == '/' {
            return (k, k - 1);
        }
        k = k - 1;
    }
    (lo, lo)
}

fn trim_back_exec(p: &Vec<char>, lo: usize, i: usize) -> (r: usize)
    requires
        lo <= i <= p.len(),
    ensures
        r == trim_back(p@, lo as int, i as int),
{
    let mut e = i;
    loop
        invariant
            lo <= e <= i,
            i <= p.len(),
            trim_back(p@, lo as int, e as int) == trim_back(p@, lo as int, i as int),
        decreases e,
    {
        if e <= lo {
            return e;
        }
        let (cs, eb) = back_piece(p, lo, e);
        proof {
            lemma_last_sep_bounds(p@, lo as int, e as int);
            reveal_strlit(".");
        }
        let ghost piece = p@.subrange(cs as int, e as int);
        let skip = cs == e || (e - cs == 1 && p[cs] == '.');
        assert(skip == skippable(p@.subrange(cs as int, e as int))) by {
            assert("."@.len() == 1 && "."@[0] == '.');
            if e - cs == 1 {
                assert(piece.len() == 1);
                assert(piece[0] == p@[cs as int]);
                if p@[cs as int] == '.' {
                    assert(piece =~= "."@);
                }
            }
        }
        if skip {
            e = eb;
        } else {
            return e;
        }
    }
}

fn parent_len_exec(p: &Vec<char>) -> (r: Option<usize>)
    ensures
        match r {
            Some(k) => parent_len(p@) == Some(k as int),
            None => parent_len(p@) is None,
        },
{
    let n = p.len();
    let lo: usize = if n > 0 && p[0] == '/' {
        1
    } else if n > 0 && p[0] == '.' && (n == 1 || p[1] == '/') {
        1
    } else {
        0
    };
    let i0 = trim_back_exec(p, lo, n);
    proof {
        lemma_trim_back_bounds(p@, lo as int, n as int);
    }
    if i0 > lo {
        let (_, eb) = back_piece(p, lo, i0);
        proof {
            lemma_last_sep_bounds(p@, lo as int, i0 as int);
        }
        Some(trim_back_exec(p, lo, eb))
    } else if lo == 1 && p[0] == '.' {
        Some(0)
    } else {
        None
    }
}

/// The ancestors of the path `start`, from `start` itself up, as
/// `Path::ancestors` gives them.
pub fn ancestors(start: &str) -> (r: Vec<String>)
    ensures
        string_views(r@) == path_ancestors(start@),
{
    let mut cur = chars_of(start);
    let mut out: Vec<String> = Vec::new();
    assert(string_views(out@) + path_ancestors(cur@) =~= path_ancestors(start@));
    loop
        invariant
            string_views(out@) + path_ancestors(cur@) == path_ancestors(start@),
        decreases cur.len(),
    {
        let ghost before = string_views(out@);
        let ghost c = cur@;
        proof {
            lemma_parent_shorter(c);
        }
        out.push(string_of(&cur));
        assert(string_views(out@) =~= before + seq![c]);
        match parent_len_exec(&cur) {
            None => {
                assert(path_ancestors(c) =~= seq![c]);
                assert(string_views(out@) =~= string_views(out@) + Seq::<Seq<char>>::empty());
                return out;
            },
            Some(k) => {
                cur.truncate(k);
                assert(before + path_ancestors(c) =~= string_views(out@) + path_ancestors(cur@));
            },
        }
    }
}

/// Joining a name onto a path: the result always ends with the name; an
/// absolute name replaces the path; a relative one keeps the path in front,
/// with exactly one `/` between them when the path is nonempty.
pub proof fn lemma_join_rules(base: Seq<char>, name: Seq<char>)
    ensures
        name.is_suffix_of(path_join(base, name)),
        name.len() > 0 && name[0] == '/' ==> path_join(base, name) == name,
        !(name.len() > 0 && name[0] == '/') ==> base.is_prefix_of(path_join(base, name)),
        !(name.len() > 0 && name[0] == '/') && base.len() > 0 && base.last() != '/'
            ==> path_join(base, name) == base + seq!['/'] + name,
        !(name.len() > 0 && name[0] == '/') && base.len() > 0 && base.last() == '/'
            ==> path_join(base, name) == base + name,
{
    let j = path_join(base, name);
    assert(j.subrange(j.len() - name.len(), j.len() as int) =~= name);
    if !(name.len() > 0 && name[0] == '/') {
        assert(j.subrange(0, base.len() as int) =~= base);
    }
}

} // verus!
