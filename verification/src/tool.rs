use vstd::prelude::*;
use crate::text::{str_eq, string_views};

verus! {

/// The package managers whose installs run in the shadow project.
pub open spec fn is_package_manager(tool: Seq<char>) -> bool {
    tool == "npm"@ || tool == "pnpm"@ || tool == "bun"@ || tool == "yarn"@
}

pub fn package_manager(tool: &str) -> (r: bool)
    ensures
        r == is_package_manager(tool@),
{
    str_eq(tool, "npm") || str_eq(tool, "pnpm") || str_eq(tool, "bun") || str_eq(tool, "yarn")
}

/// The subcommands that change installed dependencies.
pub open spec fn is_install_subcommand(a: Seq<char>) -> bool {
    a == "install"@ || a == "i"@ || a == "add"@ || a == "remove"@ || a == "rm"@ || a == "update"@
        || a == "up"@ || a == "ci"@
}

/// Whether a command installs dependencies: a package manager run with an
/// install subcommand, or with no (readable) first argument, which installs
/// too.
pub open spec fn spec_is_install_like(tool: Seq<char>, first_arg: Option<Seq<char>>) -> bool {
    is_package_manager(tool) && match first_arg {
        None => true,
        Some(a) => is_install_subcommand(a),
    }
}

/// Whether `tool` with the first argument `first_arg` (absent, or not valid
/// Unicode, when `None`) installs dependencies.
pub fn is_install_like(tool: &str, first_arg: Option<&str>) -> (r: bool)
    ensures
        r == spec_is_install_like(
            tool@,
            match first_arg {
                Some(a) => Some(a@),
                None => None,
            },
        ),
{
    if !package_manager(tool) {
        return false;
    }
    match first_arg {
        None => true,
        Some(a) => str_eq(a, "install") || str_eq(a, "i") || str_eq(a, "add") || str_eq(a, "remove")
            || str_eq(a, "rm") || str_eq(a, "update") || str_eq(a, "up") || str_eq(a, "ci"),
    }
}

/// Whether a command runs the project and so needs its dependencies: a
/// package manager's `run`, `test` or `start`.
pub open spec fn spec_should_ephemeral_install(tool: Seq<char>, first_arg: Option<Seq<char>>) -> bool {
    is_package_manager(tool) && match first_arg {
        None => false,
        Some(a) => a == "run"@ || a == "test"@ || a == "start"@,
    }
}

/// Whether an ephemeral run of `tool` with the first argument `first_arg`
/// installs the dependencies first.
pub fn should_ephemeral_install(tool: &str, first_arg: Option<&str>) -> (r: bool)
    ensures
        r == spec_should_ephemeral_install(
            tool@,
            match first_arg {
                Some(a) => Some(a@),
                None => None,
            },
        ),
{
    if !package_manager(tool) {
        return false;
    }
    match first_arg {
        None => false,
        Some(a) => str_eq(a, "run") || str_eq(a, "test") || str_eq(a, "start"),
    }
}

/// The arguments put before the user's arguments: pnpm is pointed at the
/// layer's store, other tools get none.
pub open spec fn spec_store_dir_args(tool: Seq<char>, pnpm_store: Seq<char>) -> Seq<Seq<char>> {
    if tool == "pnpm"@ {
        seq!["--store-dir"@, pnpm_store]
    } else {
        seq![]
    }
}

/// The arguments that go before the user's arguments when running `tool`.
pub fn store_dir_args(tool: &str, pnpm_store: &str) -> (r: Vec<String>)
    ensures
        string_views(r@) == spec_store_dir_args(tool@, pnpm_store@),
{
    let mut r: Vec<String> = Vec::new();
    if str_eq(tool, "pnpm") {
        r.push("--store-dir".to_owned());
        r.push(pnpm_store.to_owned());
    }
    assert(string_views(r@) =~= spec_store_dir_args(tool@, pnpm_store@));
    r
}

/// The pieces joined with single spaces between them.
pub open spec fn joined(pieces: Seq<Seq<char>>) -> Seq<char>
    decreases pieces.len(),
{
    if pieces.len() == 0 {
        seq![]
    } else if pieces.len() == 1 {
        pieces[0]
    } else {
        joined(pieces.drop_last()) + " "@ + pieces.last()
    }
}

/// The arguments of a command line joined with spaces, as it is reported.
pub fn join_args(args: &Vec<String>) -> (r: String)
    ensures
        r@ == joined(string_views(args@)),
{
    let ghost all = string_views(args@);
    let mut r = String::new();
    let mut i: usize = 0;
    assert(all.take(0) =~= Seq::<Seq<char>>::empty());
    while i < args.len()
        invariant
            i <= args.len(),
            all == string_views(args@),
            r@ == joined(all.take(i as int)),
        decreases args.len() - i,
    {
        assert(all.take(i + 1).drop_last() =~= all.take(i as int));
        assert(all.take(i + 1).last() == args@[i as int]@);
        if i > 0 {
            r.append(" ");
        } else {
            assert(all.take(1)[0] == all[0]);
        }
        r.append(args[i].as_str());
        proof {
            reveal_strlit(" ");
        }
        i = i + 1;
    }
    assert(all.take(args.len() as int) =~= all);
    r
}

/// What `rim`'s first argument asks for.
#[derive(Clone, Copy, Debug, PartialEq, Eq, Structural)]
pub enum CommandKind {
    Prepare,
    Clean,
    Status,
    Doctor,
    Help,
    /// List the layers under the base.
    Ls,
    /// Remove layers whose project is gone.
    Gc,
    /// Print a path of the layer.
    Path,
    /// Describe what running a tool would do.
    Explain,
    /// `install`, `run`, `test` or `start` alone: the project's package
    /// manager is chosen from its lockfile.
    Shortcut,
    /// Anything else names a tool to run with the layer.
    Tool,
}

pub open spec fn spec_command_kind(cmd: Seq<char>) -> CommandKind {
    if cmd == "prepare"@ {
        CommandKind::Prepare
    } else if cmd == "clean"@ {
        CommandKind::Clean
    } else if cmd == "status"@ {
        CommandKind::Status
    } else if cmd == "doctor"@ {
        CommandKind::Doctor
    } else if cmd == "help"@ || cmd == "--help"@ || cmd == "-h"@ {
        CommandKind::Help
    } else if cmd == "ls"@ {
        CommandKind::Ls
    } else if cmd == "gc"@ {
        CommandKind::Gc
    } else if cmd == "path"@ {
        CommandKind::Path
    } else if cmd == "explain"@ {
        CommandKind::Explain
    } else if cmd == "install"@ || cmd == "run"@ || cmd == "test"@ || cmd == "start"@ {
        CommandKind::Shortcut
    } else {
        CommandKind::Tool
    }
}

/// Which command `cmd` names.
pub fn command_kind(cmd: &str) -> (r: CommandKind)
    ensures
        r == spec_command_kind(cmd@),
{
    if str_eq(cmd, "prepare") {
        CommandKind::Prepare
    } else if str_eq(cmd, "clean") {
        CommandKind::Clean
    } else if str_eq(cmd, "status") {
        CommandKind::Status
    } else if str_eq(cmd, "doctor") {
        CommandKind::Doctor
    } else if str_eq(cmd, "help") || str_eq(cmd, "--help") || str_eq(cmd, "-h") {
        CommandKind::Help
    } else if str_eq(cmd, "ls") {
        CommandKind::Ls
    } else if str_eq(cmd, "gc") {
        CommandKind::Gc
    } else if str_eq(cmd, "path") {
        CommandKind::Path
    } else if str_eq(cmd, "explain") {
        CommandKind::Explain
    } else if str_eq(cmd, "install") || str_eq(cmd, "run") || str_eq(cmd, "test") || str_eq(
        cmd,
        "start",
    ) {
        CommandKind::Shortcut
    } else {
        CommandKind::Tool
    }
}

/// The lockfiles that name a project's package manager, in the order they
/// are looked for, and the manager each one names.
pub open spec fn spec_lockfiles() -> Seq<(Seq<char>, Seq<char>)> {
    seq![
        ("bun.lock"@, "bun"@),
        ("bun.lockb"@, "bun"@),
        ("pnpm-lock.yaml"@, "pnpm"@),
        ("yarn.lock"@, "yarn"@),
        ("package-lock.json"@, "npm"@),
    ]
}

/// The lockfile names looked for, in order.
pub fn lockfile_names() -> (r: Vec<&'static str>)
    ensures
        r@.len() == spec_lockfiles().len(),
        forall|i: int| 0 <= i < r@.len() ==> #[trigger] r@[i]@ == spec_lockfiles()[i].0,
{
    vec!["bun.lock", "bun.lockb", "pnpm-lock.yaml", "yarn.lock", "package-lock.json"]
}

/// The manager of the first lockfile found from `k` on; npm when none is.
pub open spec fn manager_from(found: Seq<bool>, k: int) -> Seq<char>
    decreases spec_lockfiles().len() - k,
{
    if k >= spec_lockfiles().len() {
        "npm"@
    } else if k < found.len() && found[k] {
        spec_lockfiles()[k].1
    } else {
        manager_from(found, k + 1)
    }
}

/// The package manager of a project, given for each lockfile of
/// `lockfile_names` whether the project has it: the first one found names
/// the manager, and npm is the default.
pub fn detect_manager(found: &Vec<bool>) -> (r: &'static str)
    ensures
        r@ == manager_from(found@, 0),
{
    let managers = vec!["bun", "bun", "pnpm", "yarn", "npm"];
    let mut k: usize = 0;
    while k < 5
        invariant
            k <= 5,
            managers@.len() == 5,
            forall|i: int| 0 <= i < 5 ==> #[trigger] managers@[i]@ == spec_lockfiles()[i].1,
            manager_from(found@, k as int) == manager_from(found@, 0),
        decreases 5 - k,
    {
        if k < found.len() && found[k] {
            return managers[k];
        }
        k = k + 1;
    }
    "npm"
}

/// The warning printed before an install whose layer is removed afterwards.
pub open spec fn spec_cleanup_after_install_warning() -> Seq<char> {
    "cleanup after install will remove installed dependencies; manifest and lockfile changes will remain"@
}

/// The warning printed before an install that `--auto-clean` or
/// `--ephemeral` cleans up after.
pub fn cleanup_after_install_warning() -> (r: &'static str)
    ensures
        r@ == spec_cleanup_after_install_warning(),
{
    "cleanup after install will remove installed dependencies; manifest and lockfile changes will remain"
}

/// The install-like commands: every package manager (npm, pnpm, bun, yarn)
/// run with any of the subcommands install, i, add, remove, rm, update, up
/// or ci runs in the shadow project, whichever manager it is; so does a
/// package manager run with no first argument. No other tool is ever
/// install-like, and no other subcommand is.
pub proof fn lemma_install_like_commands(tool: Seq<char>, sub: Seq<char>)
    ensures
        (tool == "npm"@ || tool == "pnpm"@ || tool == "bun"@ || tool == "yarn"@) && (sub
            == "install"@ || sub == "i"@ || sub == "add"@ || sub == "remove"@ || sub == "rm"@
            || sub == "update"@ || sub == "up"@ || sub == "ci"@) ==> spec_is_install_like(
            tool,
            Some(sub),
        ),
        (tool == "npm"@ || tool == "pnpm"@ || tool == "bun"@ || tool == "yarn"@)
            ==> spec_is_install_like(tool, None),
        spec_is_install_like(tool, Some(sub)) ==> (tool == "npm"@ || tool == "pnpm"@ || tool
            == "bun"@ || tool == "yarn"@) && (sub == "install"@ || sub == "i"@ || sub == "add"@
            || sub == "remove"@ || sub == "rm"@ || sub == "update"@ || sub == "up"@ || sub
            == "ci"@),
        spec_is_install_like(tool, None) ==> (tool == "npm"@ || tool == "pnpm"@ || tool
            == "bun"@ || tool == "yarn"@),
{
}

/// The commands that install dependencies first in an ephemeral run: every
/// package manager (npm, pnpm, bun, yarn) with run, test or start, whichever
/// manager it is; nothing else, and never an install-like command.
pub proof fn lemma_ephemeral_install_commands(tool: Seq<char>, sub: Seq<char>)
    ensures
        (tool == "npm"@ || tool == "pnpm"@ || tool == "bun"@ || tool == "yarn"@) && (sub
            == "run"@ || sub == "test"@ || sub == "start"@) ==> spec_should_ephemeral_install(
            tool,
            Some(sub),
        ),
        spec_should_ephemeral_install(tool, Some(sub)) ==> (tool == "npm"@ || tool == "pnpm"@
            || tool == "bun"@ || tool == "yarn"@) && (sub == "run"@ || sub == "test"@ || sub
            == "start"@),
        !spec_should_ephemeral_install(tool, None),
        !(spec_should_ephemeral_install(tool, Some(sub)) && spec_is_install_like(tool, Some(sub))),
{
    reveal_strlit("run");
    reveal_strlit("test");
    reveal_strlit("start");
    reveal_strlit("install");
    reveal_strlit("i");
    reveal_strlit("add");
    reveal_strlit("remove");
    reveal_strlit("rm");
    reveal_strlit("update");
    reveal_strlit("up");
    reveal_strlit("ci");
    if sub == "run"@ {
        assert(sub.len() == 3 && sub[0] == 'r' && sub[1] == 'u');
    } else if sub == "test"@ {
        assert(sub.len() == 4 && sub[0] == 't');
    } else if sub == "start"@ {
        assert(sub.len() == 5 && sub[0] == 's');
    }
}

/// Only pnpm is pointed at the layer's store, with `--store-dir` and the
/// store before the user's arguments; every other tool gets no extra
/// arguments.
pub proof fn lemma_store_dir_only_for_pnpm(tool: Seq<char>, store: Seq<char>)
    ensures
        tool == "pnpm"@ ==> spec_store_dir_args(tool, store) == seq!["--store-dir"@, store],
        tool != "pnpm"@ ==> spec_store_dir_args(tool, store).len() == 0,
{
}

/// The commands of `rim`: each name selects its command, `help`, `--help`
/// and `-h` all ask for help, the four shortcuts pick the project's package
/// manager, and any other word names a tool to run.
pub proof fn lemma_command_names(cmd: Seq<char>)
    ensures
        cmd == "prepare"@ ==> spec_command_kind(cmd) == CommandKind::Prepare,
        cmd == "clean"@ ==> spec_command_kind(cmd) == CommandKind::Clean,
        cmd == "status"@ ==> spec_command_kind(cmd) == CommandKind::Status,
        cmd == "doctor"@ ==> spec_command_kind(cmd) == CommandKind::Doctor,
        cmd == "help"@ || cmd == "--help"@ || cmd == "-h"@ ==> spec_command_kind(cmd)
            == CommandKind::Help,
        cmd == "ls"@ ==> spec_command_kind(cmd) == CommandKind::Ls,
        cmd == "gc"@ ==> spec_command_kind(cmd) == CommandKind::Gc,
        cmd == "path"@ ==> spec_command_kind(cmd) == CommandKind::Path,
        cmd == "explain"@ ==> spec_command_kind(cmd) == CommandKind::Explain,
        cmd == "install"@ || cmd == "run"@ || cmd == "test"@ || cmd == "start"@
            ==> spec_command_kind(cmd) == CommandKind::Shortcut,
        cmd == "npm"@ || cmd == "pnpm"@ || cmd == "bun"@ || cmd == "yarn"@ || cmd == "deno"@
            || cmd == "node"@ ==> spec_command_kind(cmd) == CommandKind::Tool,
{
    reveal_strlit("prepare");
    reveal_strlit("clean");
    reveal_strlit("status");
    reveal_strlit("doctor");
    reveal_strlit("help");
    reveal_strlit("--help");
    reveal_strlit("-h");
    reveal_strlit("ls");
    reveal_strlit("gc");
    reveal_strlit("path");
    reveal_strlit("explain");
    reveal_strlit("install");
    reveal_strlit("run");
    reveal_strlit("test");
    reveal_strlit("start");
    reveal_strlit("npm");
    reveal_strlit("pnpm");
    reveal_strlit("bun");
    reveal_strlit("yarn");
    reveal_strlit("deno");
    reveal_strlit("node");
    if cmd == "prepare"@ {
        assert(cmd.len() == 7 && cmd[0] == 'p' && cmd[1] == 'r' && cmd[2] == 'e' && cmd[3] == 'p' && cmd[4] == 'a' && cmd[5] == 'r' && cmd[6] == 'e');
    } else if cmd == "clean"@ {
        assert(cmd.len() == 5 && cmd[0] == 'c' && cmd[1] == 'l' && cmd[2] == 'e' && cmd[3] == 'a' && cmd[4] == 'n');
    } else if cmd == "status"@ {
        assert(cmd.len() == 6 && cmd[0] == 's' && cmd[1] == 't' && cmd[2] == 'a' && cmd[3] == 't' && cmd[4] == 'u' && cmd[5] == 's');
    } else if cmd == "doctor"@ {
        assert(cmd.len() == 6 && cmd[0] == 'd' && cmd[1] == 'o' && cmd[2] == 'c' && cmd[3] == 't' && cmd[4] == 'o' && cmd[5] == 'r');
    } else if cmd == "help"@ {
        assert(cmd.len() == 4 && cmd[0] == 'h' && cmd[1] == 'e' && cmd[2] == 'l' && cmd[3] == 'p');
    } else if cmd == "--help"@ {
        assert(cmd.len() == 6 && cmd[0] == '-' && cmd[1] == '-' && cmd[2] == 'h' && cmd[3] == 'e' && cmd[4] == 'l' && cmd[5] == 'p');
    } else if cmd == "-h"@ {
        assert(cmd.len() == 2 && cmd[0] == '-' && cmd[1] == 'h');
    } else if cmd == "ls"@ {
        assert(cmd.len() == 2 && cmd[0] == 'l' && cmd[1] == 's');
    } else if cmd == "gc"@ {
        assert(cmd.len() == 2 && cmd[0] == 'g' && cmd[1] == 'c');
    } else if cmd == "path"@ {
        assert(cmd.len() == 4 && cmd[0] == 'p' && cmd[1] == 'a' && cmd[2] == 't' && cmd[3] == 'h');
    } else if cmd == "explain"@ {
        assert(cmd.len() == 7 && cmd[0] == 'e' && cmd[1] == 'x' && cmd[2] == 'p' && cmd[3] == 'l' && cmd[4] == 'a' && cmd[5] == 'i' && cmd[6] == 'n');
    } else if cmd == "install"@ {
        assert(cmd.len() == 7 && cmd[0] == 'i' && cmd[1] == 'n' && cmd[2] == 's' && cmd[3] == 't' && cmd[4] == 'a' && cmd[5] == 'l' && cmd[6] == 'l');
    } else if cmd == "run"@ {
        assert(cmd.len() == 3 && cmd[0] == 'r' && cmd[1] == 'u' && cmd[2] == 'n');
    } else if cmd == "test"@ {
        assert(cmd.len() == 4 && cmd[0] == 't' && cmd[1] == 'e' && cmd[2] == 's' && cmd[3] == 't');
    } else if cmd == "start"@ {
        assert(cmd.len() == 5 && cmd[0] == 's' && cmd[1] == 't' && cmd[2] == 'a' && cmd[3] == 'r' && cmd[4] == 't');
    } else if cmd == "npm"@ {
        assert(cmd.len() == 3 && cmd[0] == 'n' && cmd[1] == 'p' && cmd[2] == 'm');
    } else if cmd == "pnpm"@ {
        assert(cmd.len() == 4 && cmd[0] == 'p' && cmd[1] == 'n' && cmd[2] == 'p' && cmd[3] == 'm');
    } else if cmd == "bun"@ {
        assert(cmd.len() == 3 && cmd[0] == 'b' && cmd[1] == 'u' && cmd[2] == 'n');
    } else if cmd == "yarn"@ {
        assert(cmd.len() == 4 && cmd[0] == 'y' && cmd[1] == 'a' && cmd[2] == 'r' && cmd[3] == 'n');
    } else if cmd == "deno"@ {
        assert(cmd.len() == 4 && cmd[0] == 'd' && cmd[1] == 'e' && cmd[2] == 'n' && cmd[3] == 'o');
    } else if cmd == "node"@ {
        assert(cmd.len() == 4 && cmd[0] == 'n' && cmd[1] == 'o' && cmd[2] == 'd' && cmd[3] == 'e');
    }
}

/// Whether lockfile `k` of `lockfile_names` was found.
pub open spec fn has_lockfile(found: Seq<bool>, k: int) -> bool {
    0 <= k < found.len() && found[k]
}

/// The package manager of a shortcut command follows the project's
/// lockfiles in a fixed order of preference: `bun.lock` or `bun.lockb`
/// gives bun, else `pnpm-lock.yaml` pnpm, else `yarn.lock` yarn, else npm
/// (with `package-lock.json` or with no lockfile at all).
pub proof fn lemma_manager_from_lockfiles(found: Seq<bool>)
    ensures
        has_lockfile(found, 0) || has_lockfile(found, 1) ==> manager_from(found, 0) == "bun"@,
        !has_lockfile(found, 0) && !has_lockfile(found, 1) && has_lockfile(found, 2)
            ==> manager_from(found, 0) == "pnpm"@,
        !has_lockfile(found, 0) && !has_lockfile(found, 1) && !has_lockfile(found, 2)
            && has_lockfile(found, 3) ==> manager_from(found, 0) == "yarn"@,
        !has_lockfile(found, 0) && !has_lockfile(found, 1) && !has_lockfile(found, 2)
            && !has_lockfile(found, 3) ==> manager_from(found, 0) == "npm"@,
{
    reveal_with_fuel(manager_from, 7);
}

/// The lockfiles looked for, in order, and the manager each one names.
pub proof fn lemma_lockfile_table()
    ensures
        spec_lockfiles() == seq![
            ("bun.lock"@, "bun"@),
            ("bun.lockb"@, "bun"@),
            ("pnpm-lock.yaml"@, "pnpm"@),
            ("yarn.lock"@, "yarn"@),
            ("package-lock.json"@, "npm"@),
        ],
{
}

/// The warning before an install that is cleaned up afterwards says that
/// the installed dependencies go and the manifest and lockfile changes
/// stay.
pub proof fn lemma_cleanup_warning_wording()
    ensures
        crate::text::contains(
            spec_cleanup_after_install_warning(),
            "cleanup after install will remove installed dependencies"@,
        ),
{
    let w = spec_cleanup_after_install_warning();
    let n = "cleanup after install will remove installed dependencies"@;
    reveal_strlit("cleanup after install will remove installed dependencies; manifest and lockfile changes will remain");
    reveal_strlit("cleanup after install will remove installed dependencies");
    assert(w.subrange(0, n.len() as int) =~= n);
    assert(crate::text::occurs_at(w, n, 0));
}

/// A command line is its words with one space between each two: one word
/// stands alone, and joining two nonempty lists of words puts one space
/// between their joined forms.
pub proof fn lemma_joined_concat(p: Seq<Seq<char>>, q: Seq<Seq<char>>)
    requires
        p.len() > 0,
        q.len() > 0,
    ensures
        joined(p + q) == joined(p) + " "@ + joined(q),
        joined(seq![p[0]]) == p[0],
    decreases q.len(),
{
    if q.len() == 1 {
        assert((p + q).drop_last() =~= p);
        assert((p + q).last() == q[0]);
    } else {
        lemma_joined_concat(p, q.drop_last());
        assert((p + q).drop_last() =~= p + q.drop_last());
        assert((p + q).last() == q.last());
        assert(joined(p) + " "@ + joined(q.drop_last()) + " "@ + q.last() =~= joined(p) + " "@ + (
        joined(q.drop_last()) + " "@ + q.last()));
    }
}

} // verus!
