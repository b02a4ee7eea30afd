use rim::options::{parse_options, CliOptions};
use rim::tool::{command_kind, CommandKind};

fn strings(v: &[&str]) -> Vec<String> {
    v.iter().map(|s| s.to_string()).collect()
}

fn opts(dry_run: bool, auto_clean: bool, keep_on_error: bool, ephemeral: bool) -> CliOptions {
    CliOptions { dry_run, auto_clean, keep_on_error, ephemeral, keep_cache: false }
}

#[test]
fn no_flags_leave_arguments_alone() {
    let mut args = strings(&["npm", "install"]);
    assert_eq!(parse_options(&mut args), Ok(opts(false, false, false, false)));
    assert_eq!(args, strings(&["npm", "install"]));
}

#[test]
fn leading_flags_are_consumed() {
    let mut args = strings(&["--dry-run", "--auto-clean", "npm", "--dry-run"]);
    assert_eq!(parse_options(&mut args), Ok(opts(true, true, false, false)));
    assert_eq!(args, strings(&["npm", "--dry-run"]));
}

#[test]
fn ephemeral_implies_auto_clean() {
    let mut args = strings(&["--ephemeral", "npm", "run", "dev"]);
    assert_eq!(parse_options(&mut args), Ok(opts(false, true, false, true)));
    assert_eq!(args, strings(&["npm", "run", "dev"]));
}

#[test]
fn keep_on_error_needs_cleanup_flag() {
    let mut args = strings(&["--keep-on-error", "sh"]);
    assert_eq!(
        parse_options(&mut args),
        Err("--keep-on-error requires --auto-clean or --ephemeral".to_owned())
    );
    assert_eq!(args, strings(&["sh"]));
    let mut args = strings(&["--auto-clean", "--keep-on-error", "sh", "-c", "exit 42"]);
    assert_eq!(parse_options(&mut args), Ok(opts(false, true, true, false)));
    assert_eq!(args, strings(&["sh", "-c", "exit 42"]));
}

#[test]
fn keep_cache_is_a_flag() {
    let mut args = strings(&["--keep-cache", "npm", "install"]);
    let expected = CliOptions {
        dry_run: false,
        auto_clean: false,
        keep_on_error: false,
        ephemeral: false,
        keep_cache: true,
    };
    assert_eq!(parse_options(&mut args), Ok(expected));
    assert_eq!(args, strings(&["npm", "install"]));
}

#[test]
fn only_flags_leaves_nothing() {
    let mut args = strings(&["--dry-run"]);
    assert_eq!(parse_options(&mut args), Ok(opts(true, false, false, false)));
    assert!(args.is_empty());
    let mut args: Vec<String> = Vec::new();
    assert_eq!(parse_options(&mut args), Ok(opts(false, false, false, false)));
}

#[test]
fn clean_after_rules() {
    let auto = opts(false, true, false, false);
    assert!(auto.should_clean_after(0));
    assert!(auto.should_clean_after(1));
    let keep = opts(false, true, true, false);
    assert!(keep.should_clean_after(0));
    assert!(!keep.should_clean_after(42));
    let eph = opts(false, false, false, true);
    assert!(eph.should_clean_after(3));
    let none = opts(true, false, false, false);
    assert!(!none.should_clean_after(0));
}

#[test]
fn commands_are_classified() {
    assert_eq!(command_kind("prepare"), CommandKind::Prepare);
    assert_eq!(command_kind("clean"), CommandKind::Clean);
    assert_eq!(command_kind("status"), CommandKind::Status);
    assert_eq!(command_kind("doctor"), CommandKind::Doctor);
    assert_eq!(command_kind("help"), CommandKind::Help);
    assert_eq!(command_kind("--help"), CommandKind::Help);
    assert_eq!(command_kind("-h"), CommandKind::Help);
    assert_eq!(command_kind("ls"), CommandKind::Ls);
    assert_eq!(command_kind("gc"), CommandKind::Gc);
    assert_eq!(command_kind("path"), CommandKind::Path);
    assert_eq!(command_kind("explain"), CommandKind::Explain);
    for c in ["install", "run", "test", "start"] {
        assert_eq!(command_kind(c), CommandKind::Shortcut);
    }
    assert_eq!(command_kind("npm"), CommandKind::Tool);
    assert_eq!(command_kind("Prepare"), CommandKind::Tool);
}
