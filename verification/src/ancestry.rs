use vstd::prelude::*;
use crate::paths::{
    body_start, end_before, kept, last_sep, lemma_last_sep_bounds, lemma_pieces_have_no_slash,
    path_components, pieces, pieces_from, skippable, trim_back,
};

verus! {

proof fn lemma_pieces_split(s: Seq<char>, cur: Seq<char>, j: int)
    requires
        0 <= j < s.len(),
        s[j] == '/',
    ensures
        pieces_from(s, cur) == pieces_from(s.subrange(0, j), cur) + pieces(
            s.subrange(j + 1, s.len() as int),
        ),
    decreases j,
{
    let t = s.subrange(0, j);
    let rest = s.subrange(j + 1, s.len() as int);
    if j == 0 {
        assert(t.len() == 0);
        assert(s.drop_first() =~= rest);
    } else {
        assert(t.drop_first() =~= s.drop_first().subrange(0, j - 1));
        assert(s.drop_first().subrange(j, s.drop_first().len() as int) =~= rest);
        assert(t[0] == s[0]);
        if s[0] == '/' {
            lemma_pieces_split(s.drop_first(), seq![], j - 1);
            assert(seq![cur] + (pieces_from(t.drop_first(), seq![]) + pieces(rest)) =~= seq![cur]
                + pieces_from(t.drop_first(), seq![]) + pieces(rest));
        } else {
            lemma_pieces_split(s.drop_first(), cur.push(s[0]), j - 1);
        }
    }
}

proof fn lemma_pieces_of_name(s: Seq<char>, cur: Seq<char>)
    requires
        !s.contains('/'),
    ensures
        pieces_from(s, cur) == seq![cur + s],
    decreases s.len(),
{
    if s.len() == 0 {
        assert(cur + s =~= cur);
    } else {
        assert(s[0] != '/') by {
            assert(s.contains(s[0]));
        }
        assert(!s.drop_first().contains('/')) by {
            if s.drop_first().contains('/') {
                let k = choose|k: int| 0 <= k < s.drop_first().len() && s.drop_first()[k] == '/';
                assert(s[k + 1] == '/');
            }
        }
        lemma_pieces_of_name(s.drop_first(), cur.push(s[0]));
        assert(cur.push(s[0]) + s.drop_first() =~= cur + s);
    }
}

proof fn lemma_kept_concat(a: Seq<Seq<char>>, b: Seq<Seq<char>>)
    ensures
        kept(a + b) == kept(a) + kept(b),
    decreases a.len(),
{
    if a.len() == 0 {
        assert(a + b =~= b);
        assert(kept(a) + kept(b) =~= kept(b));
    } else {
        assert((a + b).drop_first() =~= a.drop_first() + b);
        assert((a + b)[0] == a[0]);
        lemma_kept_concat(a.drop_first(), b);
        if !(a[0].len() == 0 || a[0] == "."@) {
            assert(seq![a[0]] + (kept(a.drop_first()) + kept(b)) =~= seq![a[0]] + kept(
                a.drop_first(),
            ) + kept(b));
        }
    }
}

proof fn lemma_first_piece(s: Seq<char>, cur: Seq<char>)
    ensures
        pieces_from(s, cur).len() > 0,
        cur.is_prefix_of(pieces_from(s, cur)[0]),
        s.len() > 0 && s[0] != '/' ==> pieces_from(s, cur)[0].len() > cur.len()
            && pieces_from(s, cur)[0][cur.len() as int] == s[0],
    decreases s.len(),
{
    if s.len() == 0 {
        assert(cur.subrange(0, cur.len() as int) =~= cur);
    } else if s[0] == '/' {
        assert(cur.subrange(0, cur.len() as int) =~= cur);
    } else {
        let c2 = cur.push(s[0]);
        lemma_first_piece(s.drop_first(), c2);
        let f = pieces_from(s, cur)[0];
        assert(f.subrange(0, c2.len() as int) == c2);
        assert(f.subrange(0, cur.len() as int) =~= c2.subrange(0, cur.len() as int));
        assert(c2.subrange(0, cur.len() as int) =~= cur);
        assert(f[cur.len() as int] == f.subrange(0, c2.len() as int)[cur.len() as int]);
    }
}

/// The body of a path: what follows its root or leading current directory.
pub open spec fn body(p: Seq<char>) -> Seq<char> {
    p.subrange(body_start(p), p.len() as int)
}

/// The components that come before the body: the root or the leading
/// current directory.
pub open spec fn head(p: Seq<char>) -> Seq<Seq<char>> {
    if p.len() > 0 && p[0] == '/' {
        seq!["/"@]
    } else if body_start(p) == 1 {
        seq!["."@]
    } else {
        seq![]
    }
}

proof fn lemma_components_by_body(p: Seq<char>)
    ensures
        path_components(p) == head(p) + kept(pieces(body(p))),
{
    reveal_strlit(".");
    let e: Seq<Seq<char>> = seq![seq![]];
    assert(kept(e) == Seq::<Seq<char>>::empty()) by {
        assert(e.drop_first() =~= Seq::<Seq<char>>::empty());
        assert(e[0].len() == 0);
        assert(kept(Seq::<Seq<char>>::empty()) == Seq::<Seq<char>>::empty());
    }
    if p.len() > 0 && p[0] == '/' {
        lemma_pieces_split(p, seq![], 0);
        assert(p.subrange(0, 0) =~= Seq::<char>::empty());
        lemma_kept_concat(e, pieces(body(p)));
        assert(pieces_from(Seq::<char>::empty(), seq![]) == e);
        assert(kept(e) + kept(pieces(body(p))) =~= kept(pieces(body(p))));
    } else if body_start(p) == 1 {
        if p.len() == 1 {
            assert(p =~= "."@);
            lemma_pieces_of_name(p, seq![]);
            assert(seq![] + p =~= p);
            assert(body(p).len() == 0);
            assert(pieces(p).drop_first() =~= Seq::<Seq<char>>::empty());
        } else {
            lemma_pieces_split(p, seq![], 1);
            let one = p.subrange(0, 1);
            assert(one =~= "."@);
            lemma_pieces_of_name(one, seq![]);
            assert(seq![] + one =~= one);
            let rest = p.subrange(2, p.len() as int);
            assert(pieces(p).drop_first() =~= pieces(rest));
            let b = body(p);
            lemma_pieces_split(b, seq![], 0);
            assert(b.subrange(0, 0) =~= Seq::<char>::empty());
            assert(b.subrange(1, b.len() as int) =~= rest);
            lemma_kept_concat(e, pieces(rest));
            assert(kept(e) + kept(pieces(rest)) =~= kept(pieces(rest)));
        }
    } else {
        assert(body(p) =~= p);
        lemma_first_piece(p, seq![]);
        if pieces(p)[0] == "."@ {
            let f = pieces(p)[0];
            if p.len() > 0 && p[0] != '/' {
                assert(p[0] == '.');
                if p.len() > 1 {
                    lemma_first_piece(p.drop_first(), seq![p[0]]);
                    assert(p.drop_first()[0] == p[1]);
                }
            } else {
                assert(f.len() == 0 || p.len() == 0) by {
                    if p.len() == 0 {
                    }
                }
                if p.len() == 0 {
                    assert(pieces(p) == seq![Seq::<char>::empty()]);
                }
            }
        }
    }
}

/// The components of the body of `p` between `lo` and `m`.
pub open spec fn body_names(p: Seq<char>, lo: int, m: int) -> Seq<Seq<char>> {
    kept(pieces(p.subrange(lo, m)))
}

proof fn lemma_no_sep_after_last(p: Seq<char>, lo: int, i: int)
    requires
        0 <= lo <= i <= p.len(),
    ensures
        forall|k: int| last_sep(p, lo, i) < k < i && lo <= k ==> p[k] != '/',
    decreases i - lo,
{
    if i > lo && p[i - 1] != '/' {
        lemma_no_sep_after_last(p, lo, i - 1);
    }
}

/// The last piece of `p[lo..i]`, which holds no `/`, and how the body names
/// up to `i` are made of those up to `end_before` and that piece.
proof fn lemma_last_piece(p: Seq<char>, lo: int, i: int)
    requires
        0 <= lo < i <= p.len(),
    ensures
        ({
            let piece = p.subrange(last_sep(p, lo, i) + 1, i);
            body_names(p, lo, i) == body_names(p, lo, end_before(p, lo, i)) + kept(seq![piece])
        }),
{
    reveal_strlit(".");
    lemma_last_sep_bounds(p, lo, i);
    lemma_no_sep_after_last(p, lo, i);
    let j = last_sep(p, lo, i);
    let piece = p.subrange(j + 1, i);
    assert(!piece.contains('/')) by {
        if piece.contains('/') {
            let k = choose|k: int| 0 <= k < piece.len() && piece[k] == '/';
            assert(p[j + 1 + k] == '/');
        }
    }
    lemma_pieces_of_name(piece, seq![]);
    assert(seq![] + piece =~= piece);
    let s = p.subrange(lo, i);
    if j >= lo {
        lemma_pieces_split(s, seq![], j - lo);
        assert(s.subrange(0, j - lo) =~= p.subrange(lo, j));
        assert(s.subrange(j - lo + 1, s.len() as int) =~= piece);
        lemma_kept_concat(pieces(p.subrange(lo, j)), seq![piece]);
    } else {
        assert(s =~= piece);
        let z = p.subrange(lo, lo);
        assert(z.len() == 0);
        let e: Seq<Seq<char>> = seq![seq![]];
        assert(pieces(z) == e);
        assert(kept(e) == Seq::<Seq<char>>::empty()) by {
            assert(e.drop_first() =~= Seq::<Seq<char>>::empty());
            assert(e[0].len() == 0);
            assert(kept(Seq::<Seq<char>>::empty()) == Seq::<Seq<char>>::empty());
        }
        assert(kept(e) + kept(seq![piece]) =~= kept(seq![piece]));
    }
}

proof fn lemma_kept_single(x: Seq<char>)
    ensures
        kept(seq![x]) == if skippable(x) {
            Seq::<Seq<char>>::empty()
        } else {
            seq![x]
        },
{
    reveal_strlit(".");
    let s = seq![x];
    assert(s.drop_first() =~= Seq::<Seq<char>>::empty());
    assert(kept(Seq::<Seq<char>>::empty()) == Seq::<Seq<char>>::empty());
    assert(seq![x] + Seq::<Seq<char>>::empty() =~= seq![x]);
}

/// Trimming keeps the body names, ends at `lo`, at `i` or at a `/`, and,
/// past `lo`, at a piece that names a component.
proof fn lemma_trim_back_facts(p: Seq<char>, lo: int, i: int)
    requires
        0 <= lo <= i <= p.len(),
    ensures
        body_names(p, lo, trim_back(p, lo, i)) == body_names(p, lo, i),
        ({
            let t = trim_back(p, lo, i);
            t == i || t == lo || (lo <= t < i && p[t] == '/')
        }),
        trim_back(p, lo, i) > lo ==> !skippable(
            p.subrange(last_sep(p, lo, trim_back(p, lo, i)) + 1, trim_back(p, lo, i)),
        ),
    decreases i - lo,
{
    if i > lo {
        lemma_last_sep_bounds(p, lo, i);
        let j = last_sep(p, lo, i);
        let piece = p.subrange(j + 1, i);
        if skippable(piece) {
            let eb = end_before(p, lo, i);
            lemma_last_piece(p, lo, i);
            lemma_kept_single(piece);
            assert(body_names(p, lo, eb) + Seq::<Seq<char>>::empty() =~= body_names(p, lo, eb));
            lemma_trim_back_facts(p, lo, eb);
        }
    }
}

/// The parent of a path has the path's components but the last one.
pub proof fn lemma_parent_components(p: Seq<char>)
    ensures
        crate::paths::parent_len(p) matches Some(k) ==> path_components(p).len() > 0
            && path_components(p.subrange(0, k)) == path_components(p).drop_last(),
{
    reveal_strlit(".");
    reveal_strlit("/");
    let lo = body_start(p);
    let n = p.len() as int;
    crate::paths::lemma_parent_shorter(p);
    lemma_components_by_body(p);
    assert(body(p) =~= p.subrange(lo, n));
    crate::paths::lemma_trim_back_bounds(p, lo, n);
    lemma_trim_back_facts(p, lo, n);
    let i0 = trim_back(p, lo, n);
    let e: Seq<Seq<char>> = seq![seq![]];
    assert(kept(e) == Seq::<Seq<char>>::empty()) by {
        assert(e.drop_first() =~= Seq::<Seq<char>>::empty());
        assert(e[0].len() == 0);
        assert(kept(Seq::<Seq<char>>::empty()) == Seq::<Seq<char>>::empty());
    }
    if i0 > lo {
        lemma_last_sep_bounds(p, lo, i0);
        let j = last_sep(p, lo, i0);
        let piece = p.subrange(j + 1, i0);
        let eb = end_before(p, lo, i0);
        lemma_last_piece(p, lo, i0);
        lemma_kept_single(piece);
        crate::paths::lemma_trim_back_bounds(p, lo, eb);
        lemma_trim_back_facts(p, lo, eb);
        let k = trim_back(p, lo, eb);
        assert(body_names(p, lo, n) == body_names(p, lo, eb).push(piece)) by {
            assert(body_names(p, lo, eb) + seq![piece] =~= body_names(p, lo, eb).push(piece));
        }
        assert(k == lo || p[k] == '/');
        let q = p.subrange(0, k);
        assert(body_start(q) == lo && head(q) == head(p)) by {
            if k > 0 {
                assert(q[0] == p[0]);
            }
            if k > 1 {
                assert(q[1] == p[1]);
            }
        }
        lemma_components_by_body(q);
        assert(body(q) =~= p.subrange(lo, k));
        assert(head(p) + body_names(p, lo, n) == (head(p) + body_names(p, lo, eb)).push(piece)) by {
            assert(head(p) + body_names(p, lo, eb).push(piece) =~= (head(p) + body_names(
                p,
                lo,
                eb,
            )).push(piece));
        }
    } else if lo == 1 && p[0] == '.' {
        let z = p.subrange(lo, lo);
        assert(z.len() == 0);
        assert(pieces(z) == e);
        let q = p.subrange(0, 0);
        lemma_components_by_body(q);
        assert(body(q) =~= Seq::<char>::empty());
        assert(pieces(Seq::<char>::empty()) == e);
        assert(path_components(p) =~= seq!["."@]);
        assert(path_components(q) =~= Seq::<Seq<char>>::empty());
    }
}

/// Every ancestor of a path is a path that it starts with, component by
/// component, as `Path::starts_with` decides it.
pub proof fn lemma_ancestors_are_path_prefixes(p: Seq<char>)
    ensures
        forall|m: int|
            0 <= m < crate::paths::path_ancestors(p).len()
                ==> crate::paths::spec_path_starts_with(
                p,
                #[trigger] crate::paths::path_ancestors(p)[m],
            ),
    decreases p.len(),
{
    crate::paths::lemma_parent_shorter(p);
    lemma_parent_components(p);
    let c = path_components(p);
    assert(c.subrange(0, c.len() as int) =~= c);
    match crate::paths::parent_len(p) {
        Some(k) => {
            let q = p.subrange(0, k);
            lemma_ancestors_are_path_prefixes(q);
            let r = crate::paths::path_ancestors(q);
            assert forall|m: int| 0 <= m < crate::paths::path_ancestors(p).len() implies
                crate::paths::spec_path_starts_with(
                p,
                #[trigger] crate::paths::path_ancestors(p)[m],
            ) by {
                if m > 0 {
                    let a = r[m - 1];
                    assert(crate::paths::path_ancestors(p)[m] == a);
                    let ca = path_components(a);
                    let cq = path_components(q);
                    assert(ca.is_prefix_of(cq));
                    assert(cq == c.drop_last());
                    assert(c.subrange(0, ca.len() as int) =~= cq.subrange(0, ca.len() as int));
                }
            }
        },
        None => {},
    }
}

} // verus!
