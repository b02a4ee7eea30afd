use vstd::prelude::*;
use crate::paths::{join_path, path_join};
use crate::text::{chars_eq, chars_of, decimal, split_words, string_of, u64_decimal, views, words};

verus! {

/// `std::path::MAIN_SEPARATOR`, the path separator of the platform the crate
/// is built for. Nothing is claimed of it: it depends on the build target.
#[verifier::external_body]
fn main_separator() -> (c: char) {
    std::path::MAIN_SEPARATOR
}

/// The name of the platform whose path separator is `sep`.
pub open spec fn spec_platform_name_for(sep: char) -> Seq<char> {
    if sep == '\\' {
        "windows"@
    } else {
        "unix"@
    }
}

/// The platform family that uses the path separator `sep`: `windows` for a
/// backslash, `unix` otherwise.
pub fn platform_name_for(sep: char) -> (r: &'static str)
    ensures
        r@ == spec_platform_name_for(sep),
{
    if sep == '\\' {
        "windows"
    } else {
        "unix"
    }
}

/// The platform family `rim` was built for: `unix` or `windows`.
pub fn platform_name() -> (r: &'static str)
    ensures
        r@ == "unix"@ || r@ == "windows"@,
{
    platform_name_for(main_separator())
}

/// The `/proc` entry of a process.
pub open spec fn spec_pid_proc_path(pid: u32) -> Seq<char> {
    path_join("/proc"@, decimal(pid as nat))
}

/// The `/proc` entry that exists while the process `pid` runs on Linux.
pub fn pid_proc_path(pid: u32) -> (r: String)
    ensures
        r@ == spec_pid_proc_path(pid),
{
    let digits = string_of(&u64_decimal(pid as u64));
    join_path("/proc", digits.as_str())
}

/// What was found out about a process on the platform at hand.
#[derive(Clone, Debug)]
pub enum PidProbe {
    /// Whether its `/proc` entry exists (Linux and WSL).
    ProcEntry(bool),
    /// The output of `tasklist /FI "PID eq <pid>" /NH`, or `None` when
    /// tasklist could not be run or failed (native Windows).
    Tasklist(Option<String>),
}

/// Whether the process is taken to be alive. When tasklist fails, the
/// process is taken to be alive, so that a layer in use is never removed.
pub open spec fn spec_pid_is_alive(pid: u32, probe: PidProbe) -> bool {
    match probe {
        PidProbe::ProcEntry(exists) => exists,
        PidProbe::Tasklist(None) => true,
        PidProbe::Tasklist(Some(out)) => words(out@).contains(decimal(pid as nat)),
    }
}

/// A best-effort check that the process `pid` still runs, from what was
/// probed about it.
pub fn pid_is_alive(pid: u32, probe: &PidProbe) -> (r: bool)
    ensures
        r == spec_pid_is_alive(pid, *probe),
{
    match probe {
        PidProbe::ProcEntry(exists) => *exists,
        PidProbe::Tasklist(None) => true,
        PidProbe::Tasklist(Some(out)) => {
            let want = u64_decimal(pid as u64);
            let parts = split_words(&chars_of(out.as_str()));
            let ghost ws = views(parts@);
            let mut i: usize = 0;
            while i < parts.len()
                invariant
                    i <= parts.len(),
                    ws == views(parts@),
                    ws == words(out@),
                    *probe == PidProbe::Tasklist(Some(*out)),
                    want@ == decimal(pid as nat),
                    forall|k: int| 0 <= k < i ==> ws[k] != want@,
                decreases parts.len() - i,
            {
                assert(ws[i as int] == parts@[i as int]@);
                if chars_eq(&parts[i], &want) {
                    assert(ws.contains(want@));
                    return true;
                }
                i = i + 1;
            }
            assert(!ws.contains(want@)) by {
                if ws.contains(want@) {
                    let k = choose|k: int| 0 <= k < ws.len() && ws[k] == want@;
                }
            }
            false
        },
    }
}

/// `x` limited to the range of a byte.
pub open spec fn clamp_u8(x: int) -> u8 {
    if x < 0 {
        0
    } else if x > 255 {
        255
    } else {
        x as u8
    }
}

/// The exit code that `rim` reports for a child: its exit code limited to a
/// byte; for a child killed by a signal, 128 plus the signal; otherwise 1.
pub open spec fn spec_exit_status_code(code: Option<i32>, signal: Option<i32>) -> u8 {
    match code {
        Some(c) => clamp_u8(c as int),
        None => match signal {
            Some(s) => clamp_u8(128 + s),
            None => 1,
        },
    }
}

fn clamp_to_u8(x: i32) -> (r: u8)
    ensures
        r == clamp_u8(x as int),
{
    if x < 0 {
        0
    } else if x > 255 {
        255
    } else {
        x as u8
    }
}

/// The exit code of a finished child, from its exit code or, when it has
/// none, the signal that ended it.
pub fn exit_status_code(code: Option<i32>, signal: Option<i32>) -> (r: u8)
    requires
        code is None ==> match signal {
            Some(s) => s <= i32::MAX - 128,
            None => true,
        },
    ensures
        r == spec_exit_status_code(code, signal),
{
    match code {
        Some(c) => clamp_to_u8(c),
        None => match signal {
            Some(s) => clamp_to_u8(128 + s),
            None => 1,
        },
    }
}

/// The exit code `rim` passes on: a child's own code when it fits in a
/// byte, 0 for a negative code and 255 for a larger one; a child killed by
/// signal `s` (and no code) gives 128 + `s`, at most 255; a child with
/// neither gives 1. A code always wins over a signal.
pub proof fn lemma_exit_code_rules(code: Option<i32>, signal: Option<i32>, c: i32, s: i32)
    ensures
        0 <= c <= 255 ==> spec_exit_status_code(Some(c), signal) == c,
        c < 0 ==> spec_exit_status_code(Some(c), signal) == 0,
        c > 255 ==> spec_exit_status_code(Some(c), signal) == 255,
        0 <= s <= 127 ==> spec_exit_status_code(None, Some(s)) == 128 + s,
        s > 127 ==> spec_exit_status_code(None, Some(s)) == 255,
        spec_exit_status_code(None, None) == 1,
{
}

/// A process probed through `/proc` is alive exactly when its entry
/// exists; when tasklist could not run the process is taken to be alive;
/// tasklist output naming the process id as a word means it is alive, and
/// output without any word at all means it is not.
pub proof fn lemma_pid_alive_rules(pid: u32, exists: bool, out: String)
    ensures
        spec_pid_is_alive(pid, PidProbe::ProcEntry(exists)) == exists,
        spec_pid_is_alive(pid, PidProbe::Tasklist(None)),
        words(out@).contains(decimal(pid as nat)) ==> spec_pid_is_alive(
            pid,
            PidProbe::Tasklist(Some(out)),
        ),
        words(out@).len() == 0 ==> !spec_pid_is_alive(pid, PidProbe::Tasklist(Some(out))),
{
}

/// The platform family follows the path separator: a backslash means
/// Windows, and a slash (or anything else) Unix.
pub proof fn lemma_platform_name_rules(sep: char)
    ensures
        spec_platform_name_for('\\') == "windows"@,
        spec_platform_name_for('/') == "unix"@,
        sep != '\\' ==> spec_platform_name_for(sep) == "unix"@,
{
}

} // verus!
