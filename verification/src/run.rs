use vstd::prelude::*;
use crate::options::CliOptions;
use crate::text::str_eq;
use crate::tool::{
    is_install_like, should_ephemeral_install, spec_is_install_like,
    spec_should_ephemeral_install,
};

verus! {

/// What happened to the last action of a tool run.
#[derive(Clone, Debug, PartialEq, Eq)]
pub enum ToolEvent {
    /// The action completed (also what starts the run).
    Done,
    /// The action failed with this message; the run stops with it.
    Failed(String),
    /// The answer to `CheckDependencies`: whether the layer has none yet.
    DependenciesMissing(bool),
    /// The answer to `Run`: the command's exit code.
    Exited(u8),
}

/// The next thing to do in a tool run.
#[derive(Clone, Debug, PartialEq, Eq)]
pub enum ToolAction {
    /// Warn that cleaning after an install removes what it installed.
    WarnCleanupAfterInstall,
    /// Warn when the layer's base is short of free space.
    WarnLowSpace,
    /// Remove the layer (and the project's link into it).
    Clean,
    /// Create the layer's directories and, with `link`, the project's
    /// `node_modules` link into the layer.
    EnsureLayout { link: bool },
    /// Find out whether the layer has dependencies installed.
    CheckDependencies,
    /// Mirror the project's manifests into the shadow project.
    SyncToShadow,
    /// Run the tool with the layer's cache environment, in the shadow project
    /// or in the real one; with `install`, as `<tool> install` instead of the
    /// user's arguments.
    Run { in_shadow: bool, install: bool },
    /// Report what would run, without running it.
    ReportDryRun { in_shadow: bool, ephemeral_install: bool },
    /// Copy the manifests an install changed back to the project.
    SyncBack,
    /// Remove the package manager's cache from the layer after an install.
    TrimCache,
    /// Remove the layer after the command, reporting a failure as a warning.
    CleanAfter,
    /// The run is over with this exit code.
    Finish(u8),
    /// The run is over with this error.
    Abort(String),
}

/// The state of one run of a tool with the layer.
#[derive(Clone, Debug)]
pub struct ToolRun {
    pub options: CliOptions,
    /// The command installs dependencies, so it runs in the shadow project.
    pub install_like: bool,
    /// An ephemeral run of a command that needs dependencies.
    pub ephemeral_candidate: bool,
    /// The project's `node_modules` is linked into the layer (not for deno).
    pub links_node_modules: bool,
    /// Dependencies are installed before the command.
    pub needs_ephemeral_install: bool,
    /// The exit code of the last command run (0 before any).
    pub exit_code: u8,
    /// Whether an action was issued yet.
    pub started: bool,
    /// The step of the last action issued.
    pub step: u8,
    pub finished: bool,
}

/// The last step; it finishes the run.
pub open spec fn last_step() -> int {
    19
}

/// Whether step `k` runs in state `s`. The steps, in order: warn about
/// cleanup after an install (0), warn about space (1), clean first when
/// ephemeral (2), lay out the layer (3), check the dependencies (4); the
/// install before an ephemeral run: warn about space (5), mirror manifests
/// (6), run the install (7), copy manifests back (8), trim the cache (9),
/// clean after a failed install (10), finish with its code (11); then mirror
/// manifests (12), report a dry run (13) and finish (14), run the command
/// (15), copy manifests back (16), trim the cache (17), clean after it (18),
/// finish with its code (19).
pub open spec fn enabled(s: ToolRun, k: int) -> bool {
    let o = s.options;
    let needs = s.needs_ephemeral_install;
    if k == 0 {
        (o.auto_clean || o.ephemeral) && s.install_like
    } else if k == 1 {
        s.install_like
    } else if k == 2 {
        o.ephemeral && !o.dry_run
    } else if k == 3 {
        true
    } else if k == 4 {
        s.ephemeral_candidate && !o.dry_run
    } else if k == 5 || k == 6 {
        needs
    } else if k == 7 {
        needs && !o.dry_run
    } else if k == 8 {
        needs && !o.dry_run && s.exit_code == 0
    } else if k == 9 {
        needs && !o.dry_run && s.exit_code == 0 && !o.keep_cache
    } else if k == 10 {
        needs && s.exit_code != 0 && o.spec_should_clean_after(s.exit_code)
    } else if k == 11 {
        needs && s.exit_code != 0
    } else if k == 12 {
        s.install_like
    } else if k == 13 || k == 14 {
        o.dry_run
    } else if k == 15 {
        true
    } else if k == 16 {
        s.install_like && s.exit_code == 0
    } else if k == 17 {
        s.install_like && s.exit_code == 0 && !o.keep_cache
    } else if k == 18 {
        o.spec_should_clean_after(s.exit_code)
    } else {
        true
    }
}

/// The first step from `k` on that runs in `s`.
pub open spec fn first_enabled_from(s: ToolRun, k: int) -> int
    decreases last_step() - k,
{
    if k >= last_step() {
        last_step()
    } else if enabled(s, k) {
        k
    } else {
        first_enabled_from(s, k + 1)
    }
}

/// Whether step `k` ends the run.
pub open spec fn is_final_step(k: int) -> bool {
    k == 11 || k == 14 || k == 19
}

/// The action of step `k` in state `s`.
pub open spec fn action_at(s: ToolRun, k: int) -> ToolAction {
    if k == 0 {
        ToolAction::WarnCleanupAfterInstall
    } else if k == 1 || k == 5 {
        ToolAction::WarnLowSpace
    } else if k == 2 {
        ToolAction::Clean
    } else if k == 3 {
        ToolAction::EnsureLayout { link: s.links_node_modules }
    } else if k == 4 {
        ToolAction::CheckDependencies
    } else if k == 6 || k == 12 {
        ToolAction::SyncToShadow
    } else if k == 7 {
        ToolAction::Run { in_shadow: true, install: true }
    } else if k == 8 || k == 16 {
        ToolAction::SyncBack
    } else if k == 9 || k == 17 {
        ToolAction::TrimCache
    } else if k == 10 || k == 18 {
        ToolAction::CleanAfter
    } else if k == 13 {
        ToolAction::ReportDryRun {
            in_shadow: s.install_like,
            ephemeral_install: s.needs_ephemeral_install,
        }
    } else if k == 14 {
        ToolAction::Finish(0)
    } else if k == 15 {
        ToolAction::Run { in_shadow: s.install_like, install: false }
    } else {
        ToolAction::Finish(s.exit_code)
    }
}

/// The state after the event that answers the last action: the answer to the
/// dependency check decides the install before an ephemeral run, and the exit
/// code of a command is kept.
pub open spec fn record(s: ToolRun, e: ToolEvent) -> ToolRun {
    match e {
        ToolEvent::DependenciesMissing(m) => if s.step == 4 {
            ToolRun { needs_ephemeral_install: s.ephemeral_candidate && m, ..s }
        } else {
            s
        },
        ToolEvent::Exited(c) => if s.step == 7 || s.step == 15 {
            ToolRun { exit_code: c, ..s }
        } else {
            s
        },
        _ => s,
    }
}

/// One step of a tool run: the state and the action after event `e`.
pub open spec fn spec_next(s: ToolRun, e: ToolEvent) -> (ToolRun, ToolAction) {
    if s.finished {
        (s, ToolAction::Finish(s.exit_code))
    } else if let ToolEvent::Failed(m) = e {
        (ToolRun { finished: true, ..s }, ToolAction::Abort(m))
    } else {
        let s1 = if s.started {
            record(s, e)
        } else {
            s
        };
        let k = first_enabled_from(
            s1,
            if s.started {
                s.step + 1
            } else {
                0
            },
        );
        let s2 = ToolRun { step: k as u8, started: true, finished: is_final_step(k), ..s1 };
        (s2, action_at(s2, k))
    }
}

/// The state of a fresh run.
pub open spec fn spec_new_run(
    options: CliOptions,
    install_like: bool,
    ephemeral_candidate: bool,
    links_node_modules: bool,
) -> ToolRun {
    ToolRun {
        options,
        install_like,
        ephemeral_candidate,
        links_node_modules,
        needs_ephemeral_install: ephemeral_candidate && options.dry_run,
        exit_code: 0,
        started: false,
        step: 0,
        finished: false,
    }
}

/// What holds of every state of a run: the step is a real one, a finished run
/// issued a final step or aborted, and a dry run never records an exit code
/// and never passes its final report.
pub open spec fn run_inv(s: ToolRun) -> bool {
    &&& s.step <= last_step()
    &&& s.ephemeral_candidate ==> s.options.ephemeral && !s.install_like
    &&& s.needs_ephemeral_install ==> s.ephemeral_candidate
    &&& s.options.dry_run ==> {
        &&& s.exit_code == 0
        &&& s.needs_ephemeral_install == s.ephemeral_candidate
        &&& s.step <= 14
        &&& (s.started ==> s.step != 4 && s.step != 7)
        &&& (s.started && s.step == 14 ==> s.finished)
    }
    &&& !s.started ==> s.exit_code == 0
    &&& s.started && is_final_step(s.step as int) ==> s.finished
}

proof fn lemma_first_enabled_bounds(s: ToolRun, k: int)
    requires
        0 <= k,
    ensures
        k <= first_enabled_from(s, k) <= last_step() || (k > last_step() && first_enabled_from(s, k)
            == last_step()),
        first_enabled_from(s, k) < last_step() ==> enabled(s, first_enabled_from(s, k)),
        forall|j: int| k <= j < first_enabled_from(s, k) ==> !enabled(s, j),
    decreases last_step() - k,
{
    if k < last_step() && !enabled(s, k) {
        lemma_first_enabled_bounds(s, k + 1);
    }
}

proof fn lemma_first_enabled_at_most(s: ToolRun, k: int, m: int)
    requires
        0 <= k <= m <= last_step(),
        enabled(s, m),
    ensures
        first_enabled_from(s, k) <= m,
    decreases m - k,
{
    if k < m && !enabled(s, k) {
        lemma_first_enabled_at_most(s, k + 1, m);
    }
}

/// The laws of a tool run, for every state a run can reach and every event:
/// the state stays one a run can reach; a dry run never runs the tool, never
/// cleans and never copies manifests back; a command runs in the shadow
/// project exactly when it is an install; manifests are copied back, and the
/// package manager's cache trimmed, only after an exit code of 0 and outside
/// dry runs, and the cache only without `--keep-cache`; the project's
/// `node_modules` is linked only for tools that use it; cleanup after a command
/// happens only when the options call for it with that exit code; the run
/// ends with the exit code of the last command it ran; and the exit code of a
/// command is what the run keeps.
pub proof fn lemma_tool_run_laws(s: ToolRun, e: ToolEvent)
    requires
        run_inv(s),
    ensures
        ({
            let (t, a) = spec_next(s, e);
            &&& run_inv(t)
            &&& s.options.dry_run ==> match a {
                ToolAction::Run { .. } | ToolAction::Clean | ToolAction::SyncBack
                | ToolAction::TrimCache | ToolAction::CleanAfter => false,
                _ => true,
            }
            &&& a matches ToolAction::EnsureLayout { link } ==> link == t.links_node_modules
            &&& a is TrimCache ==> t.exit_code == 0 && !t.options.dry_run && !t.options.keep_cache
            &&& a matches ToolAction::Run { in_shadow, install } ==> in_shadow == (install
                || t.install_like)
            &&& a is SyncBack ==> t.exit_code == 0 && !t.options.dry_run
            &&& a is CleanAfter ==> t.options.spec_should_clean_after(t.exit_code)
            &&& a matches ToolAction::Finish(c) ==> c == t.exit_code
            &&& s.started && !s.finished && (s.step == 7 || s.step == 15) ==> match e {
                ToolEvent::Exited(c) => t.exit_code == c,
                _ => true,
            }
        }),
{
    if !s.finished && !(e is Failed) {
        let s1 = if s.started {
            record(s, e)
        } else {
            s
        };
        let k0 = if s.started {
            s.step + 1
        } else {
            0
        };
        lemma_first_enabled_bounds(s1, k0);
        let k = first_enabled_from(s1, k0);
        if s.options.dry_run {
            if k0 <= 14 {
                lemma_first_enabled_at_most(s1, k0, 14);
            }
        }
    }
}

/// The fresh run of `tool` with the first argument `first_arg` and the
/// flags `options`.
pub open spec fn spec_tool_run(options: CliOptions, tool: Seq<char>, first_arg: Option<
    Seq<char>,
>) -> ToolRun {
    spec_new_run(
        options,
        spec_is_install_like(tool, first_arg),
        options.ephemeral && !spec_is_install_like(tool, first_arg)
            && spec_should_ephemeral_install(tool, first_arg),
        tool != "deno"@,
    )
}

/// What a fresh run knows of its command: deno never gets the project's
/// `node_modules` link while the package managers and node do; a package
/// manager's install subcommand makes the run an install; with
/// `--ephemeral`, a package manager's run, test or start installs the
/// dependencies first when they are missing, and without it nothing does.
/// So a deno run (no cleanup flags) begins by laying out the layer without
/// the link.
pub proof fn lemma_tool_run_of_command(o: CliOptions, tool: Seq<char>, sub: Seq<char>)
    ensures
        tool == "deno"@ ==> !spec_tool_run(o, tool, Some(sub)).links_node_modules,
        tool == "npm"@ || tool == "pnpm"@ || tool == "bun"@ || tool == "yarn"@ || tool
            == "node"@ ==> spec_tool_run(o, tool, Some(sub)).links_node_modules,
        (tool == "npm"@ || tool == "pnpm"@ || tool == "bun"@ || tool == "yarn"@) && (sub
            == "install"@ || sub == "i"@ || sub == "add"@ || sub == "remove"@ || sub == "rm"@
            || sub == "update"@ || sub == "up"@ || sub == "ci"@) ==> spec_tool_run(
            o,
            tool,
            Some(sub),
        ).install_like,
        o.ephemeral && (tool == "npm"@ || tool == "pnpm"@ || tool == "bun"@ || tool == "yarn"@)
            && (sub == "run"@ || sub == "test"@ || sub == "start"@) ==> spec_tool_run(
            o,
            tool,
            Some(sub),
        ).ephemeral_candidate,
        !o.ephemeral ==> !spec_tool_run(o, tool, Some(sub)).ephemeral_candidate,
        tool == "deno"@ && !o.ephemeral && !o.auto_clean ==> spec_next(
            spec_tool_run(o, tool, Some(sub)),
            ToolEvent::Done,
        ).1 == (ToolAction::EnsureLayout { link: false }),
{
    crate::tool::lemma_install_like_commands(tool, sub);
    crate::tool::lemma_ephemeral_install_commands(tool, sub);
    reveal_strlit("deno");
    reveal_strlit("npm");
    reveal_strlit("pnpm");
    reveal_strlit("bun");
    reveal_strlit("yarn");
    reveal_strlit("node");
    if tool == "deno"@ {
        assert(tool.len() == 4 && tool[0] == 'd');
        lemma_tool_run_start(
            o,
            spec_is_install_like(tool, Some(sub)),
            spec_tool_run(o, tool, Some(sub)).ephemeral_candidate,
            false,
        );
    } else if tool == "npm"@ {
        assert(tool.len() == 3 && tool[0] == 'n');
    } else if tool == "pnpm"@ {
        assert(tool.len() == 4 && tool[0] == 'p');
    } else if tool == "bun"@ {
        assert(tool.len() == 3 && tool[0] == 'b');
    } else if tool == "yarn"@ {
        assert(tool.len() == 4 && tool[0] == 'y');
    } else if tool == "node"@ {
        assert(tool.len() == 4 && tool[0] == 'n' && tool[1] == 'o');
    }
}

impl ToolRun {
    /// A run of `tool` whose first argument is `first_arg` (absent, or not
    /// valid Unicode, when `None`), with the flags `options`. Only deno, which
    /// keeps no `node_modules`, runs without the project's link.
    pub fn new(options: CliOptions, tool: &str, first_arg: Option<&str>) -> (r: ToolRun)
        ensures
            r == spec_new_run(
                options,
                spec_is_install_like(
                    tool@,
                    match first_arg {
                        Some(a) => Some(a@),
                        None => None,
                    },
                ),
                options.ephemeral && !spec_is_install_like(
                    tool@,
                    match first_arg {
                        Some(a) => Some(a@),
                        None => None,
                    },
                ) && spec_should_ephemeral_install(
                    tool@,
                    match first_arg {
                        Some(a) => Some(a@),
                        None => None,
                    },
                ),
                tool@ != "deno"@,
            ),
            r == spec_tool_run(
                options,
                tool@,
                match first_arg {
                    Some(a) => Some(a@),
                    None => None,
                },
            ),
            run_inv(r),
    {
        let install_like = is_install_like(tool, first_arg);
        let ephemeral_candidate = options.ephemeral && !install_like && should_ephemeral_install(
            tool,
            first_arg,
        );
        let links_node_modules = !str_eq(tool, "deno");
        ToolRun {
            options,
            install_like,
            ephemeral_candidate,
            links_node_modules,
            needs_ephemeral_install: ephemeral_candidate && options.dry_run,
            exit_code: 0,
            started: false,
            step: 0,
            finished: false,
        }
    }

    fn enabled_step(&self, k: u8) -> (r: bool)
        ensures
            r == enabled(*self, k as int),
    {
        let o = self.options;
        let needs = self.needs_ephemeral_install;
        if k == 0 {
            (o.auto_clean || o.ephemeral) && self.install_like
        } else if k == 1 {
            self.install_like
        } else if k == 2 {
            o.ephemeral && !o.dry_run
        } else if k == 3 {
            true
        } else if k == 4 {
            self.ephemeral_candidate && !o.dry_run
        } else if k == 5 || k == 6 {
            needs
        } else if k == 7 {
            needs && !o.dry_run
        } else if k == 8 {
            needs && !o.dry_run && self.exit_code == 0
        } else if k == 9 {
            needs && !o.dry_run && self.exit_code == 0 && !o.keep_cache
        } else if k == 10 {
            needs && self.exit_code != 0 && o.should_clean_after(self.exit_code)
        } else if k == 11 {
            needs && self.exit_code != 0
        } else if k == 12 {
            self.install_like
        } else if k == 13 || k == 14 {
            o.dry_run
        } else if k == 15 {
            true
        } else if k == 16 {
            self.install_like && self.exit_code == 0
        } else if k == 17 {
            self.install_like && self.exit_code == 0 && !o.keep_cache
        } else if k == 18 {
            o.should_clean_after(self.exit_code)
        } else {
            true
        }
    }

    fn action_of(&self, k: u8) -> (r: ToolAction)
        ensures
            r == action_at(*self, k as int),
    {
        if k == 0 {
            ToolAction::WarnCleanupAfterInstall
        } else if k == 1 || k == 5 {
            ToolAction::WarnLowSpace
        } else if k == 2 {
            ToolAction::Clean
        } else if k == 3 {
            ToolAction::EnsureLayout { link: self.links_node_modules }
        } else if k == 4 {
            ToolAction::CheckDependencies
        } else if k == 6 || k == 12 {
            ToolAction::SyncToShadow
        } else if k == 7 {
            ToolAction::Run { in_shadow: true, install: true }
        } else if k == 8 || k == 16 {
            ToolAction::SyncBack
        } else if k == 9 || k == 17 {
            ToolAction::TrimCache
        } else if k == 10 || k == 18 {
            ToolAction::CleanAfter
        } else if k == 13 {
            ToolAction::ReportDryRun {
                in_shadow: self.install_like,
                ephemeral_install: self.needs_ephemeral_install,
            }
        } else if k == 14 {
            ToolAction::Finish(0)
        } else if k == 15 {
            ToolAction::Run { in_shadow: self.install_like, install: false }
        } else {
            ToolAction::Finish(self.exit_code)
        }
    }

    /// Takes the answer `event` to the last action and gives the next action;
    /// `lemma_tool_run_laws` states what every step keeps.
    pub fn next(&mut self, event: ToolEvent) -> (a: ToolAction)
        requires
            run_inv(*old(self)),
        ensures
            (*final(self), a) == spec_next(*old(self), event),
            run_inv(*final(self)),
    {
        proof {
            lemma_tool_run_laws(*self, event);
        }
        if self.finished {
            return ToolAction::Finish(self.exit_code);
        }
        if let ToolEvent::Failed(m) = event {
            self.finished = true;
            return ToolAction::Abort(m);
        }
        let ghost s0 = *self;
        let mut k: u8 = 0;
        if self.started {
            match event {
                ToolEvent::DependenciesMissing(m) => {
                    if self.step == 4 {
                        self.needs_ephemeral_install = self.ephemeral_candidate && m;
                    }
                },
                ToolEvent::Exited(c) => {
                    if self.step == 7 || self.step == 15 {
                        self.exit_code = c;
                    }
                },
                _ => {},
            }
            k = self.step + 1;
        }
        let ghost s1 = *self;
        assert(s1 == if s0.started {
            record(s0, event)
        } else {
            s0
        });
        let ghost k0 = k as int;
        proof {
            lemma_first_enabled_bounds(s1, k0);
        }
        while k < 19 && !self.enabled_step(k)
            invariant
                *self == s1,
                k0 <= k <= 19,
                first_enabled_from(s1, k as int) == first_enabled_from(s1, k0),
            decreases 19 - k,
        {
            k = k + 1;
        }
        assert(k as int == first_enabled_from(s1, k0));
        self.step = k;
        self.started = true;
        self.finished = k == 11 || k == 14 || k == 19;
        self.action_of(k)
    }
}

/// How a run begins: an install that is cleaned up afterwards first warns
/// about it; an install then checks the free space; an ephemeral run
/// (outside a dry run) first removes the layer; otherwise the layer is laid
/// out, with the project's link exactly when the tool uses `node_modules`.
pub proof fn lemma_tool_run_start(
    o: CliOptions,
    install_like: bool,
    candidate: bool,
    links: bool,
)
    ensures
        spec_next(spec_new_run(o, install_like, candidate, links), ToolEvent::Done).1 == if (
        o.auto_clean || o.ephemeral) && install_like {
            ToolAction::WarnCleanupAfterInstall
        } else if install_like {
            ToolAction::WarnLowSpace
        } else if o.ephemeral && !o.dry_run {
            ToolAction::Clean
        } else {
            ToolAction::EnsureLayout { link: links }
        },
{
    reveal_with_fuel(first_enabled_from, 5);
}

/// What follows the layout of a run that is no ephemeral candidate: an
/// install mirrors the manifests into the shadow project; otherwise a dry
/// run reports, and a real one runs the command in the project.
pub proof fn lemma_tool_run_after_layout(s: ToolRun)
    requires
        run_inv(s),
        s.started,
        !s.finished,
        s.step == 3,
        !s.ephemeral_candidate,
    ensures
        spec_next(s, ToolEvent::Done).1 == if s.install_like {
            ToolAction::SyncToShadow
        } else if s.options.dry_run {
            ToolAction::ReportDryRun { in_shadow: false, ephemeral_install: false }
        } else {
            ToolAction::Run { in_shadow: false, install: false }
        },
{
    reveal_with_fuel(first_enabled_from, 13);
}

/// What follows the command of a run once it exited with `c`: the code is
/// kept; after a successful install the changed manifests are copied back;
/// otherwise the layer is cleaned when the options call for it with that
/// code, else the run finishes with it.
pub proof fn lemma_tool_run_after_command(s: ToolRun, c: u8)
    requires
        run_inv(s),
        s.started,
        !s.finished,
        s.step == 15,
    ensures
        spec_next(s, ToolEvent::Exited(c)).0.exit_code == c,
        spec_next(s, ToolEvent::Exited(c)).1 == if s.install_like && c == 0 {
            ToolAction::SyncBack
        } else if s.options.spec_should_clean_after(c) {
            ToolAction::CleanAfter
        } else {
            ToolAction::Finish(c)
        },
{
    reveal_with_fuel(first_enabled_from, 5);
}

/// What follows copying the manifests back after a successful install: the
/// package manager's cache is trimmed unless `--keep-cache` was given, then
/// the layer is cleaned when the options call for it, and the run finishes
/// with exit code 0.
pub proof fn lemma_tool_run_after_sync_back(s: ToolRun)
    requires
        run_inv(s),
        s.started,
        !s.finished,
        s.step == 16,
        s.install_like,
        s.exit_code == 0,
    ensures
        spec_next(s, ToolEvent::Done).1 == if !s.options.keep_cache {
            ToolAction::TrimCache
        } else if s.options.spec_should_clean_after(0) {
            ToolAction::CleanAfter
        } else {
            ToolAction::Finish(0)
        },
        ({
            let t = spec_next(s, ToolEvent::Done).0;
            t.step == 17 ==> spec_next(t, ToolEvent::Done).1 == if s.options.spec_should_clean_after(
                0,
            ) {
                ToolAction::CleanAfter
            } else {
                ToolAction::Finish(0)
            }
        }),
{
    reveal_with_fuel(first_enabled_from, 5);
}

/// In an ephemeral run the answer to the dependency check decides: with
/// dependencies missing, an install runs first (after the space check);
/// with dependencies present the command runs at once in the project.
pub proof fn lemma_tool_run_ephemeral_check(s: ToolRun, missing: bool)
    requires
        run_inv(s),
        s.started,
        !s.finished,
        s.step == 4,
        s.ephemeral_candidate,
        !s.options.dry_run,
    ensures
        spec_next(s, ToolEvent::DependenciesMissing(missing)).1 == if missing {
            ToolAction::WarnLowSpace
        } else {
            ToolAction::Run { in_shadow: false, install: false }
        },
{
    reveal_with_fuel(first_enabled_from, 13);
}

/// What follows the install before an ephemeral run once it exited with
/// `c`: on success the manifests are copied back; on failure the layer is
/// cleaned when the options call for it, else the run finishes with `c`.
pub proof fn lemma_tool_run_after_ephemeral_install(s: ToolRun, c: u8)
    requires
        run_inv(s),
        s.started,
        !s.finished,
        s.step == 7,
        s.needs_ephemeral_install,
    ensures
        spec_next(s, ToolEvent::Exited(c)).0.exit_code == c,
        spec_next(s, ToolEvent::Exited(c)).1 == if c == 0 {
            ToolAction::SyncBack
        } else if s.options.spec_should_clean_after(c) {
            ToolAction::CleanAfter
        } else {
            ToolAction::Finish(c)
        },
{
    reveal_with_fuel(first_enabled_from, 5);
}

/// The answer that `rim explain` assumes to action `a`: every command
/// exits with 0 and the layer has no dependencies yet.
pub open spec fn assumed_event(a: ToolAction) -> ToolEvent {
    match a {
        ToolAction::Run { .. } => ToolEvent::Exited(0),
        ToolAction::CheckDependencies => ToolEvent::DependenciesMissing(true),
        _ => ToolEvent::Done,
    }
}

/// The actions of a run from state `s` answered by `e`, then by the assumed
/// answers, at most `n` of them, up to and including the one that ends it.
pub open spec fn plan_from(s: ToolRun, e: ToolEvent, n: nat) -> Seq<ToolAction>
    decreases n,
{
    if n == 0 {
        seq![]
    } else {
        let (t, a) = spec_next(s, e);
        if a is Finish || a is Abort {
            seq![a]
        } else {
            seq![a] + plan_from(t, assumed_event(a), (n - 1) as nat)
        }
    }
}

fn assumed_answer(a: &ToolAction) -> (e: ToolEvent)
    ensures
        e == assumed_event(*a),
{
    match a {
        ToolAction::Run { .. } => ToolEvent::Exited(0),
        ToolAction::CheckDependencies => ToolEvent::DependenciesMissing(true),
        _ => ToolEvent::Done,
    }
}

/// The position from which a run looks for its next step.
pub open spec fn next_from(s: ToolRun) -> int {
    if s.started {
        s.step + 1
    } else {
        0
    }
}

/// A step of an unfinished run either ends it or moves it to a later step
/// that does not end it.
proof fn lemma_next_advances(s: ToolRun, e: ToolEvent)
    requires
        run_inv(s),
        !s.finished,
    ensures
        ({
            let (t, a) = spec_next(s, e);
            (a is Finish || a is Abort) || (t.started && !t.finished && next_from(s) <= t.step
                < last_step())
        }),
{
    if !(e is Failed) {
        let s1 = if s.started {
            record(s, e)
        } else {
            s
        };
        let k0 = next_from(s);
        lemma_first_enabled_bounds(s1, k0);
    }
}

/// The plan that `rim explain` prints for `run`: its actions when every
/// command succeeds and the layer has no dependencies, up to the one that
/// ends the run, which it always reaches (a run has at most 20 steps).
pub fn explain_plan(run: ToolRun) -> (r: Vec<ToolAction>)
    requires
        run_inv(run),
        !run.started,
        !run.finished,
    ensures
        r@ == plan_from(run, ToolEvent::Done, 20),
        r@.len() > 0,
        r@.last() is Finish || r@.last() is Abort,
{
    let mut s = run;
    let mut e = ToolEvent::Done;
    let mut out: Vec<ToolAction> = Vec::new();
    let mut n: usize = 20;
    assert(out@ + plan_from(s, e, 20) =~= plan_from(run, ToolEvent::Done, 20));
    while n > 0
        invariant
            run_inv(s),
            !s.finished,
            n <= 20,
            next_from(s) + n >= 20,
            out@ + plan_from(s, e, n as nat) == plan_from(run, ToolEvent::Done, 20),
            n == 20 || (out@.len() > 0 && !(out@.last() is Finish) && !(out@.last() is Abort)),
        decreases n,
    {
        let ghost s0 = s;
        let ghost e0 = e;
        proof {
            lemma_next_advances(s, e);
        }
        let a = s.next(e);
        let ghost before = out@;
        let stop = match &a {
            ToolAction::Finish(_) | ToolAction::Abort(_) => true,
            _ => false,
        };
        if stop {
            out.push(a);
            assert(out@ =~= before + plan_from(s0, e0, n as nat));
            return out;
        }
        e = assumed_answer(&a);
        out.push(a);
        assert(before + plan_from(s0, e0, n as nat) =~= out@ + plan_from(s, e, (n - 1) as nat));
        n = n - 1;
    }
    assert(is_final_step(s.step as int) ==> s.finished);
    assert(false);
    out
}

/// How `rim explain` describes an action of a run of `tool`.
pub open spec fn spec_describe_action(a: ToolAction, tool: Seq<char>) -> Seq<char> {
    match a {
        ToolAction::WarnCleanupAfterInstall => "warn that cleanup after install removes dependencies"@,
        ToolAction::WarnLowSpace => "check free space in RIM_BASE"@,
        ToolAction::Clean => "remove the layer first"@,
        ToolAction::EnsureLayout { link } => if link {
            "prepare the layer and the node_modules link"@
        } else {
            "prepare the layer without a node_modules link"@
        },
        ToolAction::CheckDependencies => "check installed dependencies"@,
        ToolAction::SyncToShadow => "sync manifests into the shadow project"@,
        ToolAction::Run { in_shadow, install } => if install {
            "run "@ + tool + " install in the shadow project"@
        } else if in_shadow {
            "run "@ + tool + " in the shadow project"@
        } else {
            "run "@ + tool + " in the project"@
        },
        ToolAction::ReportDryRun { .. } => "report the command without running it"@,
        ToolAction::SyncBack => "copy changed manifests back to the project"@,
        ToolAction::TrimCache => "trim "@ + tool + " cache"@,
        ToolAction::CleanAfter => "clean the layer"@,
        ToolAction::Finish(_) => "exit with the command's code"@,
        ToolAction::Abort(_) => "stop with the error"@,
    }
}

fn joined3(a: &str, b: &str, c: &str) -> (r: String)
    ensures
        r@ == a@ + b@ + c@,
{
    let mut r = a.to_owned();
    r.append(b);
    r.append(c);
    r
}

/// The line that `rim explain` prints for an action of a run of `tool`.
pub fn describe_action(a: &ToolAction, tool: &str) -> (r: String)
    ensures
        r@ == spec_describe_action(*a, tool@),
{
    match a {
        ToolAction::WarnCleanupAfterInstall => "warn that cleanup after install removes dependencies".to_owned(),
        ToolAction::WarnLowSpace => "check free space in RIM_BASE".to_owned(),
        ToolAction::Clean => "remove the layer first".to_owned(),
        ToolAction::EnsureLayout { link } => if *link {
            "prepare the layer and the node_modules link".to_owned()
        } else {
            "prepare the layer without a node_modules link".to_owned()
        },
        ToolAction::CheckDependencies => "check installed dependencies".to_owned(),
        ToolAction::SyncToShadow => "sync manifests into the shadow project".to_owned(),
        ToolAction::Run { in_shadow, install } => if *install {
            joined3("run ", tool, " install in the shadow project")
        } else if *in_shadow {
            joined3("run ", tool, " in the shadow project")
        } else {
            joined3("run ", tool, " in the project")
        },
        ToolAction::ReportDryRun { .. } => "report the command without running it".to_owned(),
        ToolAction::SyncBack => "copy changed manifests back to the project".to_owned(),
        ToolAction::TrimCache => joined3("trim ", tool, " cache"),
        ToolAction::CleanAfter => "clean the layer".to_owned(),
        ToolAction::Finish(_) => "exit with the command's code".to_owned(),
        ToolAction::Abort(_) => "stop with the error".to_owned(),
    }
}

/// How `rim explain` names the steps it reports: copying manifests into
/// the shadow project, running the tool there or in the project, and
/// trimming the tool's cache, each naming the tool.
pub proof fn lemma_describe_action_wording(tool: Seq<char>)
    ensures
        spec_describe_action(ToolAction::SyncToShadow, tool) == "sync manifests into the shadow project"@,
        spec_describe_action(ToolAction::TrimCache, tool) == "trim "@ + tool + " cache"@,
        spec_describe_action(ToolAction::Run { in_shadow: true, install: false }, tool) == "run "@
            + tool + " in the shadow project"@,
        spec_describe_action(ToolAction::Run { in_shadow: false, install: false }, tool) == "run "@
            + tool + " in the project"@,
        spec_describe_action(ToolAction::Run { in_shadow: true, install: true }, tool) == "run "@
            + tool + " install in the shadow project"@,
{
}

} // verus!
