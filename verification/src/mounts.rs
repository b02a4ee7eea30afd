use vstd::prelude::*;
use crate::paths::{path_starts_with, spec_path_starts_with};
use crate::text::{
    chars_of, lines, occurs_at, replace_all, replace_chars, split_lines, split_words, string_of, views,
    words,
};

verus! {

/// A mount point path as `/proc/mounts` writes it, with the octal escapes for
/// space, tab, newline and backslash undone, in that order.
pub open spec fn spec_unescape_mount_path(p: Seq<char>) -> Seq<char> {
    replace_all(
        replace_all(
            replace_all(replace_all(p, "\\040"@, " "@), "\\011"@, "\t"@),
            "\\012"@,
            "\n"@,
        ),
        "\\134"@,
        "\\"@,
    )
}

fn unescape_chars(p: &Vec<char>) -> (r: Vec<char>)
    ensures
        r@ == spec_unescape_mount_path(p@),
{
    proof {
        reveal_strlit("\\040");
        reveal_strlit("\\011");
        reveal_strlit("\\012");
        reveal_strlit("\\134");
    }
    let a = replace_chars(p, &chars_of("\\040"), &chars_of(" "));
    let b = replace_chars(&a, &chars_of("\\011"), &chars_of("\t"));
    let c = replace_chars(&b, &chars_of("\\012"), &chars_of("\n"));
    replace_chars(&c, &chars_of("\\134"), &chars_of("\\"))
}

proof fn lemma_replace_absent(s: Seq<char>, pat: Seq<char>, rep: Seq<char>)
    requires
        pat.len() > 0,
        !s.contains(pat[0]),
    ensures
        replace_all(s, pat, rep) == s,
    decreases s.len(),
{
    if s.len() > 0 {
        assert(!occurs_at(s, pat, 0)) by {
            if occurs_at(s, pat, 0) {
                assert(s.subrange(0, pat.len() as int)[0] == s[0]);
            }
        }
        assert(!s.drop_first().contains(pat[0])) by {
            if s.drop_first().contains(pat[0]) {
                let k = choose|k: int| 0 <= k < s.drop_first().len() && s.drop_first()[k] == pat[0];
                assert(s[k + 1] == pat[0]);
            }
        }
        lemma_replace_absent(s.drop_first(), pat, rep);
        assert(seq![s[0]] + s.drop_first() =~= s);
    }
}

/// A mount point without backslashes is read as it is written: only the
/// escapes, which all start with a backslash, are rewritten.
pub proof fn lemma_unescape_plain_path(p: Seq<char>)
    requires
        !p.contains('\\'),
    ensures
        spec_unescape_mount_path(p) == p,
{
    reveal_strlit("\\040");
    reveal_strlit("\\011");
    reveal_strlit("\\012");
    reveal_strlit("\\134");
    lemma_replace_absent(p, "\\040"@, " "@);
    lemma_replace_absent(p, "\\011"@, "\t"@);
    lemma_replace_absent(p, "\\012"@, "\n"@);
    lemma_replace_absent(p, "\\134"@, "\\"@);
}

/// Undoes the octal escapes of a mount point path from `/proc/mounts`.
pub fn unescape_mount_path(path: &str) -> (r: String)
    ensures
        r@ == spec_unescape_mount_path(path@),
{
    string_of(&unescape_chars(&chars_of(path)))
}

/// A mounted file system: where it is mounted and its type.
#[derive(Clone, Debug)]
pub struct MountInfo {
    pub mount_point: String,
    pub fs_type: String,
}

/// The mount point and type held by an optional mount.
pub open spec fn mount_view(m: Option<MountInfo>) -> Option<(Seq<char>, Seq<char>)> {
    match m {
        None => None,
        Some(m) => Some((m.mount_point@, m.fs_type@)),
    }
}

/// The length in bytes of the UTF-8 encoding of `s`.
pub open spec fn utf8_len(s: Seq<char>) -> nat {
    vstd::utf8::encode_utf8(s).len()
}

/// The mount that holds `path`, read from the `/proc/mounts` lines `ls` on top
/// of the best one found so far: a line with at least three fields names a
/// mount point (second field, unescaped) and a type (third field); among the
/// mount points that `path` starts with, the first longest one wins.
pub open spec fn best_mount_from(
    ls: Seq<Seq<char>>,
    path: Seq<char>,
    best: Option<(Seq<char>, Seq<char>)>,
) -> Option<(Seq<char>, Seq<char>)>
    decreases ls.len(),
{
    if ls.len() == 0 {
        best
    } else {
        let f = words(ls[0]);
        let next = if f.len() < 3 {
            best
        } else {
            let mp = spec_unescape_mount_path(f[1]);
            if spec_path_starts_with(path, mp) && match best {
                None => true,
                Some(b) => utf8_len(mp) > utf8_len(b.0),
            } {
                Some((mp, f[2]))
            } else {
                best
            }
        };
        best_mount_from(ls.drop_first(), path, next)
    }
}

/// The mount, among the lines of `/proc/mounts`, that holds `path`.
pub open spec fn spec_mount_info_for(mounts: Seq<char>, path: Seq<char>) -> Option<
    (Seq<char>, Seq<char>),
> {
    best_mount_from(lines(mounts), path, None)
}

/// The mount point and type of the file system that holds `path` (an
/// existing path), read from the contents of `/proc/mounts`.
pub fn mount_info_for(mounts: &str, path: &str) -> (r: Option<MountInfo>)
    ensures
        match r {
            Some(m) => spec_mount_info_for(mounts@, path@) == Some((m.mount_point@, m.fs_type@)),
            None => spec_mount_info_for(mounts@, path@) is None,
        },
{
    let ls = split_lines(&chars_of(mounts));
    let ghost all = views(ls@);
    let mut best: Option<MountInfo> = None;
    let mut i: usize = 0;
    assert(all.skip(0) =~= all);
    while i < ls.len()
        invariant
            i <= ls.len(),
            all == views(ls@),
            all == lines(mounts@),
            best_mount_from(
                all.skip(i as int),
                path@,
                mount_view(best),
            ) == spec_mount_info_for(mounts@, path@),
        decreases ls.len() - i,
    {
        let ghost rest = all.skip(i as int);
        assert(rest[0] == ls@[i as int]@);
        assert(rest.drop_first() =~= all.skip(i + 1));
        let ghost before = mount_view(best);
        let fields = split_words(&ls[i]);
        assert(views(fields@) == words(rest[0]));
        if fields.len() >= 3 {
            assert(views(fields@)[1] == fields@[1]@ && views(fields@)[2] == fields@[2]@);
            let mp = string_of(&unescape_chars(&fields[1]));
            if path_starts_with(path, mp.as_str()) {
                let longer = match &best {
                    None => true,
                    Some(b) => mp.as_str().as_bytes().len() > b.mount_point.as_str().as_bytes().len(),
                };
                if longer {
                    best = Some(MountInfo { mount_point: mp, fs_type: string_of(&fields[2]) });
                }
            }
        }
        assert(best_mount_from(rest, path@, before) == best_mount_from(
            all.skip(i + 1),
            path@,
            mount_view(best),
        ));
        i = i + 1;
    }
    assert(all.skip(i as int) =~= Seq::<Seq<char>>::empty());
    best
}

proof fn lemma_best_mount_from(
    ls: Seq<Seq<char>>,
    path: Seq<char>,
    best: Option<(Seq<char>, Seq<char>)>,
)
    requires
        best matches Some(b) ==> spec_path_starts_with(path, b.0),
    ensures
        best_mount_from(ls, path, best) matches Some(m) ==> spec_path_starts_with(path, m.0),
        best matches Some(b) ==> (best_mount_from(ls, path, best) matches Some(m) && utf8_len(b.0)
            <= utf8_len(m.0)),
        forall|k: int|
            0 <= k < ls.len() && (#[trigger] words(ls[k])).len() >= 3 && spec_path_starts_with(
                path,
                spec_unescape_mount_path(words(ls[k])[1]),
            ) ==> (best_mount_from(ls, path, best) matches Some(m) && utf8_len(
                spec_unescape_mount_path(words(ls[k])[1]),
            ) <= utf8_len(m.0)),
    decreases ls.len(),
{
    if ls.len() > 0 {
        let f = words(ls[0]);
        let next = if f.len() < 3 {
            best
        } else {
            let mp = spec_unescape_mount_path(f[1]);
            if spec_path_starts_with(path, mp) && match best {
                None => true,
                Some(b) => utf8_len(mp) > utf8_len(b.0),
            } {
                Some((mp, f[2]))
            } else {
                best
            }
        };
        lemma_best_mount_from(ls.drop_first(), path, next);
        assert forall|k: int|
            0 <= k < ls.len() && (#[trigger] words(ls[k])).len() >= 3 && spec_path_starts_with(
                path,
                spec_unescape_mount_path(words(ls[k])[1]),
            ) implies (best_mount_from(ls, path, best) matches Some(m) && utf8_len(
            spec_unescape_mount_path(words(ls[k])[1]),
        ) <= utf8_len(m.0)) by {
            if k > 0 {
                assert(ls.drop_first()[k - 1] == ls[k]);
            }
        }
    }
}

/// The mount found for a path holds it: the path starts with its mount
/// point, component by component; no line of the mount table with a mount
/// point that the path starts with has a longer one; and when such a line
/// exists, a mount is found.
pub proof fn lemma_mount_holds_path(mounts: Seq<char>, path: Seq<char>)
    ensures
        spec_mount_info_for(mounts, path) matches Some(m) ==> spec_path_starts_with(path, m.0),
        forall|k: int|
            0 <= k < lines(mounts).len() && (#[trigger] words(lines(mounts)[k])).len() >= 3
                && spec_path_starts_with(
                path,
                spec_unescape_mount_path(words(lines(mounts)[k])[1]),
            ) ==> (spec_mount_info_for(mounts, path) matches Some(m) && utf8_len(
                spec_unescape_mount_path(words(lines(mounts)[k])[1]),
            ) <= utf8_len(m.0)),
{
    lemma_best_mount_from(lines(mounts), path, None);
}

} // verus!
