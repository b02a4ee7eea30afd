use vstd::prelude::*;
use crate::storage::{kib_bytes, kib_to_bytes};
use crate::text::{
    chars_eq, chars_of, lines, parse_u64, spec_parse_u64, split_lines, split_words, trim_end,
    trim_end_chars, views, words,
};

verus! {

/// What `/proc/meminfo` says of the machine's memory, in bytes.
#[derive(Clone, Copy, Debug, PartialEq, Eq, Structural)]
pub struct MemoryInfo {
    pub total_bytes: Option<u64>,
    pub available_bytes: Option<u64>,
    pub shmem_bytes: Option<u64>,
}

/// Nothing known of the memory.
pub open spec fn no_memory_info() -> MemoryInfo {
    MemoryInfo { total_bytes: None, available_bytes: None, shmem_bytes: None }
}

/// The memory figures after the `/proc/meminfo` lines `ls`, on top of `info`:
/// a line whose first field is `MemTotal:`, `MemAvailable:` or `Shmem:` (any
/// number of trailing colons) and whose second field is a number of KiB sets
/// that figure; a later line wins over an earlier one.
pub open spec fn meminfo_from(ls: Seq<Seq<char>>, info: MemoryInfo) -> MemoryInfo
    decreases ls.len(),
{
    if ls.len() == 0 {
        info
    } else {
        let f = words(ls[0]);
        let next = if f.len() < 2 {
            info
        } else {
            match spec_parse_u64(f[1]) {
                None => info,
                Some(v) => {
                    let key = trim_end(f[0], ':');
                    let bytes = kib_to_bytes(v);
                    if key == "MemTotal"@ {
                        MemoryInfo { total_bytes: Some(bytes), ..info }
                    } else if key == "MemAvailable"@ {
                        MemoryInfo { available_bytes: Some(bytes), ..info }
                    } else if key == "Shmem"@ {
                        MemoryInfo { shmem_bytes: Some(bytes), ..info }
                    } else {
                        info
                    }
                },
            }
        };
        meminfo_from(ls.drop_first(), next)
    }
}

/// The memory figures that the contents of `/proc/meminfo` give.
pub open spec fn spec_parse_meminfo(contents: Seq<char>) -> MemoryInfo {
    meminfo_from(lines(contents), no_memory_info())
}

/// Reads the total, available and shared memory from `/proc/meminfo`.
pub fn parse_meminfo(contents: &str) -> (r: MemoryInfo)
    ensures
        r == spec_parse_meminfo(contents@),
{
    let ls = split_lines(&chars_of(contents));
    let ghost all = views(ls@);
    let mut info = MemoryInfo { total_bytes: None, available_bytes: None, shmem_bytes: None };
    let total_key = chars_of("MemTotal");
    let available_key = chars_of("MemAvailable");
    let shmem_key = chars_of("Shmem");
    let mut i: usize = 0;
    assert(all.skip(0) =~= all);
    while i < ls.len()
        invariant
            i <= ls.len(),
            all == views(ls@),
            all == lines(contents@),
            total_key@ == "MemTotal"@,
            available_key@ == "MemAvailable"@,
            shmem_key@ == "Shmem"@,
            meminfo_from(all.skip(i as int), info) == spec_parse_meminfo(contents@),
        decreases ls.len() - i,
    {
        let ghost rest = all.skip(i as int);
        let ghost before = info;
        assert(rest[0] == ls@[i as int]@);
        assert(rest.drop_first() =~= all.skip(i + 1));
        let fields = split_words(&ls[i]);
        assert(views(fields@) == words(rest[0]));
        if fields.len() >= 2 {
            assert(views(fields@)[0] == fields@[0]@ && views(fields@)[1] == fields@[1]@);
            match parse_u64(&fields[1]) {
                None => {},
                Some(v) => {
                    let key = trim_end_chars(&fields[0], ':');
                    let bytes = kib_bytes(v);
                    if chars_eq(&key, &total_key) {
                        info.total_bytes = Some(bytes);
                    } else if chars_eq(&key, &available_key) {
                        info.available_bytes = Some(bytes);
                    } else if chars_eq(&key, &shmem_key) {
                        info.shmem_bytes = Some(bytes);
                    }
                },
            }
        }
        assert(meminfo_from(rest, before) == meminfo_from(all.skip(i + 1), info));
        i = i + 1;
    }
    assert(all.skip(i as int) =~= Seq::<Seq<char>>::empty());
    info
}

/// Whether line `l` of `/proc/meminfo` gives the figure named `key` as
/// `v` KiB.
pub open spec fn gives(l: Seq<char>, key: Seq<char>, v: u64) -> bool {
    words(l).len() >= 2 && trim_end(words(l)[0], ':') == key && spec_parse_u64(words(l)[1]) == Some(
        v,
    )
}

proof fn lemma_meminfo_from(ls: Seq<Seq<char>>, info: MemoryInfo)
    ensures
        ({
            let r = meminfo_from(ls, info);
            &&& (r.total_bytes matches Some(b) ==> info.total_bytes == Some(b) || exists|k: int, v: u64|
                0 <= k < ls.len() && #[trigger] gives(ls[k], "MemTotal"@, v) && b == kib_to_bytes(v))
            &&& (r.available_bytes matches Some(b) ==> info.available_bytes == Some(b) || exists|
                k: int,
                v: u64,
            |
                0 <= k < ls.len() && #[trigger] gives(ls[k], "MemAvailable"@, v) && b == kib_to_bytes(
                    v,
                ))
            &&& (r.shmem_bytes matches Some(b) ==> info.shmem_bytes == Some(b) || exists|k: int, v: u64|
                0 <= k < ls.len() && #[trigger] gives(ls[k], "Shmem"@, v) && b == kib_to_bytes(v))
            &&& (info.total_bytes is Some ==> r.total_bytes is Some)
            &&& (info.available_bytes is Some ==> r.available_bytes is Some)
            &&& (info.shmem_bytes is Some ==> r.shmem_bytes is Some)
            &&& (forall|k: int, v: u64|
                0 <= k < ls.len() && #[trigger] gives(ls[k], "MemTotal"@, v) ==> r.total_bytes is Some)
            &&& (forall|k: int, v: u64|
                0 <= k < ls.len() && #[trigger] gives(ls[k], "MemAvailable"@, v)
                    ==> r.available_bytes is Some)
            &&& (forall|k: int, v: u64|
                0 <= k < ls.len() && #[trigger] gives(ls[k], "Shmem"@, v) ==> r.shmem_bytes is Some)
        }),
    decreases ls.len(),
{
    reveal_strlit("MemTotal");
    reveal_strlit("MemAvailable");
    reveal_strlit("Shmem");
    assert("MemAvailable"@.len() == 12 && "MemTotal"@.len() == 8 && "Shmem"@.len() == 5);
    assert("MemAvailable"@ != "MemTotal"@ && "Shmem"@ != "MemTotal"@ && "Shmem"@
        != "MemAvailable"@);
    if ls.len() > 0 {
        let f = words(ls[0]);
        let next = if f.len() < 2 {
            info
        } else {
            match spec_parse_u64(f[1]) {
                None => info,
                Some(v) => {
                    let key = trim_end(f[0], ':');
                    let bytes = kib_to_bytes(v);
                    if key == "MemTotal"@ {
                        MemoryInfo { total_bytes: Some(bytes), ..info }
                    } else if key == "MemAvailable"@ {
                        MemoryInfo { available_bytes: Some(bytes), ..info }
                    } else if key == "Shmem"@ {
                        MemoryInfo { shmem_bytes: Some(bytes), ..info }
                    } else {
                        info
                    }
                },
            }
        };
        assert(meminfo_from(ls, info) == meminfo_from(ls.drop_first(), next));
        lemma_meminfo_from(ls.drop_first(), next);
        let r = meminfo_from(ls, info);
        let t = ls.drop_first();
        if f.len() >= 2 && spec_parse_u64(f[1]) is Some {
            let v = spec_parse_u64(f[1])->0;
            let key = trim_end(f[0], ':');
            if key == "MemTotal"@ {
                assert(gives(ls[0], "MemTotal"@, v));
            } else if key == "MemAvailable"@ {
                assert(gives(ls[0], "MemAvailable"@, v));
            } else if key == "Shmem"@ {
                assert(gives(ls[0], "Shmem"@, v));
            }
        }
        assert forall|k: int, v: u64| 1 <= k < ls.len() implies (gives(ls[k], "MemTotal"@, v)
            == gives(t[k - 1], "MemTotal"@, v) && gives(ls[k], "MemAvailable"@, v) == gives(
            t[k - 1],
            "MemAvailable"@,
            v,
        ) && gives(ls[k], "Shmem"@, v) == gives(t[k - 1], "Shmem"@, v)) by {
            assert(t[k - 1] == ls[k]);
        }
        if r.total_bytes is Some && !(info.total_bytes == r.total_bytes) {
            let b = r.total_bytes->0;
            if next.total_bytes == Some(b) && info.total_bytes != Some(b) {
                assert(gives(ls[0], "MemTotal"@, spec_parse_u64(f[1])->0));
            } else {
                let (k, v) = choose|k: int, v: u64|
                    0 <= k < t.len() && #[trigger] gives(t[k], "MemTotal"@, v) && b == kib_to_bytes(v);
                assert(gives(ls[k + 1], "MemTotal"@, v));
            }
        }
        if r.available_bytes is Some && !(info.available_bytes == r.available_bytes) {
            let b = r.available_bytes->0;
            if next.available_bytes == Some(b) && info.available_bytes != Some(b) {
                assert(gives(ls[0], "MemAvailable"@, spec_parse_u64(f[1])->0));
            } else {
                let (k, v) = choose|k: int, v: u64|
                    0 <= k < t.len() && #[trigger] gives(t[k], "MemAvailable"@, v) && b
                        == kib_to_bytes(v);
                assert(gives(ls[k + 1], "MemAvailable"@, v));
            }
        }
        if r.shmem_bytes is Some && !(info.shmem_bytes == r.shmem_bytes) {
            let b = r.shmem_bytes->0;
            if next.shmem_bytes == Some(b) && info.shmem_bytes != Some(b) {
                assert(gives(ls[0], "Shmem"@, spec_parse_u64(f[1])->0));
            } else {
                let (k, v) = choose|k: int, v: u64|
                    0 <= k < t.len() && #[trigger] gives(t[k], "Shmem"@, v) && b == kib_to_bytes(v);
                assert(gives(ls[k + 1], "Shmem"@, v));
            }
        }
        assert forall|k: int, v: u64|
            0 <= k < ls.len() && #[trigger] gives(ls[k], "MemTotal"@, v) implies r.total_bytes is Some by {
            if k > 0 {
                assert(gives(t[k - 1], "MemTotal"@, v));
            }
        }
        assert forall|k: int, v: u64|
            0 <= k < ls.len() && #[trigger] gives(ls[k], "MemAvailable"@, v) implies r.available_bytes is Some by {
            if k > 0 {
                assert(gives(t[k - 1], "MemAvailable"@, v));
            }
        }
        assert forall|k: int, v: u64|
            0 <= k < ls.len() && #[trigger] gives(ls[k], "Shmem"@, v) implies r.shmem_bytes is Some by {
            if k > 0 {
                assert(gives(t[k - 1], "Shmem"@, v));
            }
        }
    }
}

/// Each memory figure comes from a line that names it: a known total is
/// `MemTotal` KiB times 1024, a known available amount `MemAvailable`, a
/// known shared amount `Shmem`, each from some line of the file; and every
/// figure that some line gives is known.
pub proof fn lemma_meminfo_figures(contents: Seq<char>)
    ensures
        ({
            let r = spec_parse_meminfo(contents);
            let ls = lines(contents);
            &&& (r.total_bytes matches Some(b) ==> exists|k: int, v: u64|
                0 <= k < ls.len() && #[trigger] gives(ls[k], "MemTotal"@, v) && b == kib_to_bytes(v))
            &&& (r.available_bytes matches Some(b) ==> exists|k: int, v: u64|
                0 <= k < ls.len() && #[trigger] gives(ls[k], "MemAvailable"@, v) && b
                    == kib_to_bytes(v))
            &&& (r.shmem_bytes matches Some(b) ==> exists|k: int, v: u64|
                0 <= k < ls.len() && #[trigger] gives(ls[k], "Shmem"@, v) && b == kib_to_bytes(v))
            &&& (forall|k: int, v: u64|
                0 <= k < ls.len() && #[trigger] gives(ls[k], "MemTotal"@, v) ==> r.total_bytes is Some)
            &&& (forall|k: int, v: u64|
                0 <= k < ls.len() && #[trigger] gives(ls[k], "MemAvailable"@, v)
                    ==> r.available_bytes is Some)
            &&& (forall|k: int, v: u64|
                0 <= k < ls.len() && #[trigger] gives(ls[k], "Shmem"@, v) ==> r.shmem_bytes is Some)
        }),
{
    lemma_meminfo_from(lines(contents), no_memory_info());
}

} // verus!
