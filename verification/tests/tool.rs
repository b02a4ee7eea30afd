use rim::options::CliOptions;
use rim::run::{describe_action, explain_plan, ToolAction, ToolEvent, ToolRun};
use rim::tool::{
    cleanup_after_install_warning, detect_manager, is_install_like, join_args, lockfile_names,
    should_ephemeral_install, store_dir_args,
};

fn opts(dry_run: bool, auto_clean: bool, keep_on_error: bool, ephemeral: bool) -> CliOptions {
    CliOptions { dry_run, auto_clean, keep_on_error, ephemeral, keep_cache: false }
}

const LINKED: ToolAction = ToolAction::EnsureLayout { link: true };

/// Drives a run to its end: commands exit with the codes in `exits`, in
/// order, and the dependency check answers `deps_missing`.
fn drive(mut run: ToolRun, exits: &[u8], deps_missing: bool) -> Vec<ToolAction> {
    let mut actions = Vec::new();
    let mut exits = exits.iter();
    let mut event = ToolEvent::Done;
    for _ in 0..64 {
        let a = run.next(event);
        actions.push(a.clone());
        event = match a {
            ToolAction::Finish(_) | ToolAction::Abort(_) => return actions,
            ToolAction::Run { .. } => ToolEvent::Exited(*exits.next().expect("exit code")),
            ToolAction::CheckDependencies => ToolEvent::DependenciesMissing(deps_missing),
            _ => ToolEvent::Done,
        };
    }
    panic!("run did not finish");
}

#[test]
fn install_like_detection() {
    assert!(is_install_like("npm", Some("install")));
    assert!(is_install_like("pnpm", Some("add")));
    assert!(is_install_like("bun", Some("i")));
    assert!(is_install_like("yarn", None));
    for sub in ["install", "i", "add", "remove", "rm", "update", "up", "ci"] {
        assert!(is_install_like("npm", Some(sub)));
    }
    assert!(!is_install_like("npm", Some("run")));
    assert!(!is_install_like("deno", Some("install")));
    assert!(!is_install_like("sh", None));
}

#[test]
fn ephemeral_install_detection() {
    assert!(should_ephemeral_install("npm", Some("run")));
    assert!(should_ephemeral_install("yarn", Some("test")));
    assert!(should_ephemeral_install("bun", Some("start")));
    assert!(!should_ephemeral_install("npm", None));
    assert!(!should_ephemeral_install("npm", Some("install")));
    assert!(!should_ephemeral_install("deno", Some("run")));
}

#[test]
fn pnpm_gets_store_dir_before_subcommand() {
    assert_eq!(
        store_dir_args("pnpm", "/dev/shm/rim/app-1/pnpm-store"),
        vec!["--store-dir".to_owned(), "/dev/shm/rim/app-1/pnpm-store".to_owned()]
    );
    assert!(store_dir_args("npm", "/s").is_empty());
    let mut line = store_dir_args("pnpm", "/s");
    line.push("install".to_owned());
    assert_eq!(join_args(&line), "--store-dir /s install");
}

#[test]
fn args_are_joined_with_spaces() {
    assert_eq!(join_args(&Vec::new()), "");
    assert_eq!(join_args(&vec!["install".to_owned()]), "install");
    assert_eq!(join_args(&vec!["run".to_owned(), "dev".to_owned()]), "run dev");
}

#[test]
fn plain_run_runs_in_project() {
    let run = ToolRun::new(opts(false, false, false, false), "npm", Some("run"));
    assert_eq!(
        drive(run, &[3], false),
        vec![
            LINKED,
            ToolAction::Run { in_shadow: false, install: false },
            ToolAction::Finish(3)
        ]
    );
}

#[test]
fn install_runs_in_shadow_and_copies_back() {
    let run = ToolRun::new(opts(false, false, false, false), "npm", Some("install"));
    assert_eq!(
        drive(run, &[0], false),
        vec![
            ToolAction::WarnLowSpace,
            LINKED,
            ToolAction::SyncToShadow,
            ToolAction::Run { in_shadow: true, install: false },
            ToolAction::SyncBack,
            ToolAction::TrimCache,
            ToolAction::Finish(0)
        ]
    );
}

#[test]
fn keep_cache_skips_trimming() {
    let mut o = opts(false, false, false, false);
    o.keep_cache = true;
    let run = ToolRun::new(o, "npm", Some("install"));
    let actions = drive(run, &[0], false);
    assert!(actions.contains(&ToolAction::SyncBack));
    assert!(!actions.contains(&ToolAction::TrimCache));
    assert_eq!(actions.last(), Some(&ToolAction::Finish(0)));
}

#[test]
fn failed_install_does_not_copy_back() {
    let run = ToolRun::new(opts(false, false, false, false), "npm", Some("install"));
    let actions = drive(run, &[1], false);
    assert!(!actions.contains(&ToolAction::SyncBack));
    assert!(!actions.contains(&ToolAction::TrimCache));
    assert_eq!(actions.last(), Some(&ToolAction::Finish(1)));
}

#[test]
fn dry_run_reports_without_running() {
    let run = ToolRun::new(opts(true, false, false, false), "npm", Some("install"));
    assert_eq!(
        drive(run, &[], false),
        vec![
            ToolAction::WarnLowSpace,
            LINKED,
            ToolAction::SyncToShadow,
            ToolAction::ReportDryRun { in_shadow: true, ephemeral_install: false },
            ToolAction::Finish(0)
        ]
    );
}

#[test]
fn dry_run_of_plain_command() {
    let run = ToolRun::new(opts(true, false, false, false), "deno", Some("cache"));
    assert_eq!(
        drive(run, &[], false),
        vec![
            ToolAction::EnsureLayout { link: false },
            ToolAction::ReportDryRun { in_shadow: false, ephemeral_install: false },
            ToolAction::Finish(0)
        ]
    );
}

#[test]
fn auto_clean_removes_layer_after_success() {
    let run = ToolRun::new(opts(false, true, false, false), "sh", Some("-c"));
    assert_eq!(
        drive(run, &[0], false),
        vec![
            LINKED,
            ToolAction::Run { in_shadow: false, install: false },
            ToolAction::CleanAfter,
            ToolAction::Finish(0)
        ]
    );
}

#[test]
fn keep_on_error_preserves_layer_and_exit_code() {
    let run = ToolRun::new(opts(false, true, true, false), "sh", Some("-c"));
    assert_eq!(
        drive(run, &[42], false),
        vec![
            LINKED,
            ToolAction::Run { in_shadow: false, install: false },
            ToolAction::Finish(42)
        ]
    );
}

#[test]
fn auto_clean_install_warns_and_cleans() {
    let run = ToolRun::new(opts(false, true, false, false), "npm", Some("install"));
    assert_eq!(
        drive(run, &[0], false),
        vec![
            ToolAction::WarnCleanupAfterInstall,
            ToolAction::WarnLowSpace,
            LINKED,
            ToolAction::SyncToShadow,
            ToolAction::Run { in_shadow: true, install: false },
            ToolAction::SyncBack,
            ToolAction::TrimCache,
            ToolAction::CleanAfter,
            ToolAction::Finish(0)
        ]
    );
}

#[test]
fn ephemeral_installs_before_run_and_cleans() {
    let run = ToolRun::new(opts(false, true, false, true), "npm", Some("run"));
    assert_eq!(
        drive(run, &[0, 7], true),
        vec![
            ToolAction::Clean,
            LINKED,
            ToolAction::CheckDependencies,
            ToolAction::WarnLowSpace,
            ToolAction::SyncToShadow,
            ToolAction::Run { in_shadow: true, install: true },
            ToolAction::SyncBack,
            ToolAction::TrimCache,
            ToolAction::Run { in_shadow: false, install: false },
            ToolAction::CleanAfter,
            ToolAction::Finish(7)
        ]
    );
}

#[test]
fn ephemeral_skips_install_when_dependencies_present() {
    let run = ToolRun::new(opts(false, true, false, true), "npm", Some("test"));
    assert_eq!(
        drive(run, &[0], false),
        vec![
            ToolAction::Clean,
            LINKED,
            ToolAction::CheckDependencies,
            ToolAction::Run { in_shadow: false, install: false },
            ToolAction::CleanAfter,
            ToolAction::Finish(0)
        ]
    );
}

#[test]
fn ephemeral_failed_install_stops_with_its_code() {
    let run = ToolRun::new(opts(false, true, false, true), "npm", Some("run"));
    assert_eq!(
        drive(run, &[5], true),
        vec![
            ToolAction::Clean,
            LINKED,
            ToolAction::CheckDependencies,
            ToolAction::WarnLowSpace,
            ToolAction::SyncToShadow,
            ToolAction::Run { in_shadow: true, install: true },
            ToolAction::CleanAfter,
            ToolAction::Finish(5)
        ]
    );
}

#[test]
fn ephemeral_dry_run_reports_install() {
    let run = ToolRun::new(opts(true, true, false, true), "npm", Some("run"));
    assert_eq!(
        drive(run, &[], true),
        vec![
            LINKED,
            ToolAction::WarnLowSpace,
            ToolAction::SyncToShadow,
            ToolAction::ReportDryRun { in_shadow: false, ephemeral_install: true },
            ToolAction::Finish(0)
        ]
    );
}

#[test]
fn failure_aborts_the_run() {
    let mut run = ToolRun::new(opts(false, false, false, false), "npm", Some("install"));
    assert_eq!(run.next(ToolEvent::Done), ToolAction::WarnLowSpace);
    assert_eq!(run.next(ToolEvent::Done), LINKED);
    assert_eq!(
        run.next(ToolEvent::Failed("cannot create x".to_owned())),
        ToolAction::Abort("cannot create x".to_owned())
    );
    assert_eq!(run.next(ToolEvent::Done), ToolAction::Finish(0));
}

#[test]
fn deno_runs_never_link_node_modules() {
    let run = ToolRun::new(opts(false, false, false, false), "deno", Some("run"));
    let actions = drive(run, &[0], false);
    assert_eq!(actions[0], ToolAction::EnsureLayout { link: false });
    assert!(!actions.contains(&LINKED));
}

#[test]
fn explain_lines() {
    assert_eq!(describe_action(&ToolAction::TrimCache, "bun"), "trim bun cache");
    assert_eq!(describe_action(&ToolAction::SyncToShadow, "bun"), "sync manifests into the shadow project");
    assert_eq!(
        describe_action(&ToolAction::Run { in_shadow: true, install: false }, "npm"),
        "run npm in the shadow project"
    );
    assert_eq!(
        describe_action(&ToolAction::Run { in_shadow: true, install: true }, "npm"),
        "run npm install in the shadow project"
    );
    assert_eq!(
        describe_action(&ToolAction::EnsureLayout { link: false }, "deno"),
        "prepare the layer without a node_modules link"
    );
    let run = ToolRun::new(opts(true, false, false, false), "bun", Some("install"));
    assert!(run.install_like);
    let lines: Vec<String> = drive(run, &[], false).iter().map(|a| describe_action(a, "bun")).collect();
    assert!(lines.contains(&"sync manifests into the shadow project".to_owned()));
}

#[test]
fn manager_from_lockfiles() {
    assert_eq!(
        lockfile_names(),
        vec!["bun.lock", "bun.lockb", "pnpm-lock.yaml", "yarn.lock", "package-lock.json"]
    );
    assert_eq!(detect_manager(&vec![true, false, false, false, false]), "bun");
    assert_eq!(detect_manager(&vec![false, true, false, false, false]), "bun");
    assert_eq!(detect_manager(&vec![false, false, true, false, true]), "pnpm");
    assert_eq!(detect_manager(&vec![false, false, false, true, false]), "yarn");
    assert_eq!(detect_manager(&vec![false, false, false, false, true]), "npm");
    assert_eq!(detect_manager(&vec![false; 5]), "npm");
    assert_eq!(detect_manager(&vec![]), "npm");
}

#[test]
fn cleanup_warning_text() {
    assert!(cleanup_after_install_warning().contains("cleanup after install will remove installed dependencies"));
}

#[test]
fn explain_plan_of_bun_install() {
    let run = ToolRun::new(opts(false, false, false, false), "bun", Some("install"));
    assert!(run.install_like);
    let plan = explain_plan(run);
    assert_eq!(
        plan,
        vec![
            ToolAction::WarnLowSpace,
            LINKED,
            ToolAction::SyncToShadow,
            ToolAction::Run { in_shadow: true, install: false },
            ToolAction::SyncBack,
            ToolAction::TrimCache,
            ToolAction::Finish(0)
        ]
    );
    let lines: Vec<String> = plan.iter().map(|a| describe_action(a, "bun")).collect();
    assert!(lines.contains(&"trim bun cache".to_owned()));
    let ephemeral = ToolRun::new(opts(false, true, false, true), "npm", Some("run"));
    let plan = explain_plan(ephemeral);
    assert!(plan.contains(&ToolAction::Run { in_shadow: true, install: true }));
    assert_eq!(plan.last(), Some(&ToolAction::Finish(0)));
}
