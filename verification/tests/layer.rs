use rim::config::{cache_dir, default_rim_base, default_rim_base_windows, select_rim_base};
use rim::context::{build_context, path_choice, PathChoice};
use rim::hash::short_hash;
use rim::links::{clean_mode, clean_plan, node_modules_link_action, CleanMode, CleanPlan, LinkAction, LinkState};
use rim::meta::{gc_plan, gc_removes, ls_header, ls_row, parse_gc_args, parse_meta, render_meta, GcLayer, GcOptions};
use rim::manifests::{manifest_names, mutable_manifest_names};
use rim::paths::{components, join_path, path_file_name, path_starts_with, same_path};

#[test]
fn short_hash_of_known_inputs() {
    assert_eq!(short_hash(""), "cbf29ce4");
    assert_eq!(short_hash("a"), "af63dc4c");
    assert_eq!(short_hash("foobar"), "85944171");
}

#[test]
fn short_hash_is_eight_hex_digits() {
    for p in ["/home/poteto/code/app", "/", "/tmp/ünïcode", "relative/path"] {
        let h = short_hash(p);
        assert_eq!(h.len(), 8);
        assert!(h.chars().all(|c| c.is_ascii_hexdigit() && !c.is_ascii_uppercase()));
        assert_eq!(h, short_hash(p));
    }
    assert_ne!(short_hash("/a/app"), short_hash("/b/app"));
}

#[test]
fn join_follows_unix_push() {
    assert_eq!(join_path("/dev/shm/rim", "app"), "/dev/shm/rim/app");
    assert_eq!(join_path("/dev/shm/rim/", "app"), "/dev/shm/rim/app");
    assert_eq!(join_path("", "app"), "app");
    assert_eq!(join_path("/base", "/abs"), "/abs");
    assert_eq!(join_path("/base", ""), "/base/");
}

#[test]
fn context_lays_out_the_layer() {
    let ctx = build_context("/home/poteto/code/app", "/dev/shm/rim");
    let layer = format!("/dev/shm/rim/app-{}", short_hash("/home/poteto/code/app"));
    assert_eq!(ctx.project_root, "/home/poteto/code/app");
    assert_eq!(ctx.rim_base, "/dev/shm/rim");
    assert_eq!(ctx.rim_dir, layer);
    assert_eq!(ctx.shadow_project, format!("{layer}/project"));
    assert_eq!(ctx.node_modules, format!("{layer}/project/node_modules"));
    assert_eq!(ctx.npm_cache, format!("{layer}/npm-cache"));
    assert_eq!(ctx.xdg_cache, format!("{layer}/xdg-cache"));
    assert_eq!(ctx.tmp, format!("{layer}/tmp"));
    assert_eq!(ctx.deno_dir, format!("{layer}/deno-cache"));
    assert_eq!(ctx.playwright_browsers, format!("{layer}/playwright-browsers"));
    assert_eq!(ctx.bun_cache, format!("{layer}/bun-cache"));
    assert_eq!(ctx.pnpm_store, format!("{layer}/pnpm-store"));
    assert_eq!(ctx.project_link(), "/home/poteto/code/app/node_modules");
    let dirs = ctx.layout_dirs();
    assert_eq!(dirs.len(), 10);
    assert_eq!(dirs[0], ctx.rim_dir);
    for d in &dirs[1..] {
        assert!(d.starts_with(&format!("{layer}/")));
    }
}

#[test]
fn context_of_root_uses_project_name() {
    let ctx = build_context("/", "/tmp/base");
    assert_eq!(ctx.rim_dir, format!("/tmp/base/project-{}", short_hash("/")));
}

#[test]
fn cache_env_points_into_layer() {
    let ctx = build_context("/srv/site", "/dev/shm/rim");
    let env = ctx.cache_env();
    let names: Vec<&str> = env.iter().map(|(n, _)| n.as_str()).collect();
    assert_eq!(
        names,
        vec![
            "npm_config_cache",
            "XDG_CACHE_HOME",
            "TMPDIR",
            "DENO_DIR",
            "PLAYWRIGHT_BROWSERS_PATH",
            "BUN_INSTALL_CACHE_DIR"
        ]
    );
    assert_eq!(env[0].1, ctx.npm_cache);
    assert_eq!(env[1].1, ctx.xdg_cache);
    assert_eq!(env[2].1, ctx.tmp);
    assert_eq!(env[3].1, ctx.deno_dir);
    assert_eq!(env[4].1, ctx.playwright_browsers);
    assert_eq!(env[5].1, ctx.bun_cache);
}

#[test]
fn manifests_lists() {
    assert_eq!(
        manifest_names(),
        vec![
            "package.json",
            "package-lock.json",
            "npm-shrinkwrap.json",
            "pnpm-lock.yaml",
            "bun.lock",
            "bun.lockb",
            "yarn.lock",
            ".npmrc",
            "bunfig.toml"
        ]
    );
    let back = mutable_manifest_names();
    assert_eq!(back.len(), 7);
    for m in &back {
        assert!(manifest_names().contains(m));
    }
    assert!(!back.contains(&".npmrc"));
    assert!(!back.contains(&"bunfig.toml"));
}

#[test]
fn bunfig_toml_is_mirrored() {
    assert!(manifest_names().contains(&"bunfig.toml"));
}

#[test]
fn link_actions() {
    let nm = "/dev/shm/rim/app-1/project/node_modules";
    assert_eq!(node_modules_link_action(&LinkState::Missing, nm), Ok(LinkAction::Create));
    assert_eq!(
        node_modules_link_action(&LinkState::Symlink(nm.to_owned()), nm),
        Ok(LinkAction::Keep)
    );
    assert_eq!(
        node_modules_link_action(&LinkState::Symlink(format!("{nm}/")), nm),
        Ok(LinkAction::Keep)
    );
    assert_eq!(
        node_modules_link_action(&LinkState::Symlink("/elsewhere/node_modules".to_owned()), nm),
        Ok(LinkAction::Replace)
    );
}

#[test]
fn refuses_to_overwrite_real_node_modules() {
    let r = node_modules_link_action(&LinkState::NotSymlink, "/x/node_modules");
    assert_eq!(
        r,
        Err("node_modules exists and is not a symlink. Try: move or delete node_modules, or run rim from another project".to_owned())
    );
    assert!(r.unwrap_err().contains("node_modules exists and is not a symlink. Try:"));
}

#[test]
fn link_errors_carry_the_cause() {
    assert_eq!(
        node_modules_link_action(&LinkState::UnreadableSymlink("denied".to_owned()), "/n"),
        Err("cannot read node_modules symlink: denied".to_owned())
    );
    assert_eq!(
        node_modules_link_action(&LinkState::Uninspectable("io".to_owned()), "/n"),
        Err("cannot inspect node_modules: io".to_owned())
    );
}

fn plan(remove_link: bool, remove_rim_dir: bool, remove_dependencies: bool, remove_caches: bool) -> CleanPlan {
    CleanPlan { remove_link, remove_rim_dir, remove_dependencies, remove_caches }
}

#[test]
fn clean_removes_only_own_link() {
    let nm = "/base/app-1/project/node_modules";
    let all = CleanMode::All;
    assert_eq!(
        clean_plan(&LinkState::Symlink(nm.to_owned()), nm, true, all),
        Ok(plan(true, true, false, false))
    );
    assert_eq!(
        clean_plan(&LinkState::Symlink("/other/node_modules".to_owned()), nm, true, all),
        Ok(plan(false, true, false, false))
    );
    assert_eq!(
        clean_plan(&LinkState::NotSymlink, nm, false, all),
        Ok(plan(false, false, false, false))
    );
    assert_eq!(
        clean_plan(&LinkState::Missing, nm, true, all),
        Ok(plan(false, true, false, false))
    );
    assert_eq!(
        clean_plan(&LinkState::UnreadableSymlink("gone".to_owned()), nm, true, all),
        Err("cannot read node_modules link: gone".to_owned())
    );
}

#[test]
fn clean_modes() {
    assert_eq!(clean_mode(None), Ok(CleanMode::All));
    assert_eq!(clean_mode(Some("--cache-only")), Ok(CleanMode::CacheOnly));
    assert_eq!(clean_mode(Some("--deps-only")), Ok(CleanMode::DepsOnly));
    assert_eq!(clean_mode(Some("--all")), Err("unknown clean option: --all".to_owned()));
    let nm = "/base/app-1/project/node_modules";
    let own = LinkState::Symlink(nm.to_owned());
    assert_eq!(clean_plan(&own, nm, true, CleanMode::CacheOnly), Ok(plan(false, false, false, true)));
    assert_eq!(clean_plan(&own, nm, true, CleanMode::DepsOnly), Ok(plan(true, false, true, false)));
    assert_eq!(
        clean_plan(&LinkState::Symlink("/x".to_owned()), nm, true, CleanMode::DepsOnly),
        Ok(plan(false, false, true, false))
    );
    assert_eq!(
        clean_plan(&LinkState::UnreadableSymlink("gone".to_owned()), nm, true, CleanMode::CacheOnly),
        Ok(plan(false, false, false, true))
    );
}

#[test]
fn cache_dirs_leave_dependencies() {
    let ctx = build_context("/srv/site", "/dev/shm/rim");
    let caches = ctx.cache_dirs();
    assert_eq!(caches.len(), 7);
    assert!(caches.contains(&ctx.npm_cache));
    assert!(caches.contains(&ctx.pnpm_store));
    assert!(!caches.contains(&ctx.node_modules));
    assert!(!caches.contains(&ctx.shadow_project));
    assert_eq!(ctx.tool_cache("npm"), Some(ctx.npm_cache.clone()));
    assert_eq!(ctx.tool_cache("pnpm"), Some(ctx.pnpm_store.clone()));
    assert_eq!(ctx.tool_cache("bun"), Some(ctx.bun_cache.clone()));
    assert_eq!(ctx.tool_cache("yarn"), Some(ctx.xdg_cache.clone()));
    assert_eq!(ctx.tool_cache("deno"), None);
    assert_eq!(ctx.metadata_path(), format!("{}/.rim-meta.json", ctx.rim_dir));
}

#[test]
fn path_choices() {
    let ctx = build_context("/srv/site", "/tmp/base");
    assert_eq!(path_choice(None), Ok(PathChoice::RimDir));
    assert_eq!(path_choice(Some("--node-modules")), Ok(PathChoice::NodeModules));
    assert_eq!(path_choice(Some("--shadow")), Ok(PathChoice::Shadow));
    assert_eq!(path_choice(Some("--base")), Ok(PathChoice::Base));
    assert_eq!(path_choice(Some("--x")), Err("unknown path option: --x".to_owned()));
    assert!(ctx.chosen_path(PathChoice::RimDir).starts_with("/tmp/base/"));
    assert!(ctx.chosen_path(PathChoice::NodeModules).ends_with("project/node_modules"));
    assert_eq!(ctx.chosen_path(PathChoice::Base), "/tmp/base");
    assert_eq!(ctx.chosen_path(PathChoice::Shadow), ctx.shadow_project);
}

#[test]
fn layers_of_different_projects_are_siblings() {
    let a = build_context("/work/one/app", "/tmp/base");
    let b = build_context("/work/two/app", "/tmp/base");
    assert_ne!(a.rim_dir, b.rim_dir);
    assert!(!b.rim_dir.starts_with(&format!("{}/", a.rim_dir)));
    assert!(a.rim_dir.starts_with("/tmp/base/"));
    assert!(!a.rim_dir["/tmp/base/".len()..].contains('/'));
}

#[test]
fn metadata_round_trips() {
    let text = render_meta("/home/u/app", "prepare");
    assert_eq!(text, "{\n  \"project_root\": \"/home/u/app\",\n  \"manager\": \"prepare\"\n}\n");
    assert!(text.contains("\"manager\": \"prepare\""));
    assert_eq!(parse_meta(&text), Some(("/home/u/app".to_owned(), "prepare".to_owned())));
    let odd = "/tmp/a \"quoted\"\\dir\n";
    let text = render_meta(odd, "npm");
    assert_eq!(parse_meta(&text), Some((odd.to_owned(), "npm".to_owned())));
    assert_eq!(parse_meta("{}"), None);
    assert_eq!(parse_meta(&format!("{text} ")), None);
}

#[test]
fn gc_decisions() {
    assert_eq!(parse_gc_args(&vec![]), Ok(GcOptions { dry_run: false, orphaned_only: false }));
    assert_eq!(
        parse_gc_args(&vec!["--dry-run".to_owned(), "--orphaned".to_owned()]),
        Ok(GcOptions { dry_run: true, orphaned_only: true })
    );
    assert_eq!(parse_gc_args(&vec!["--all".to_owned()]), Err("unknown gc option: --all".to_owned()));
    let meta = Some(("/gone".to_owned(), "prepare".to_owned()));
    assert!(gc_removes(&meta, false, true));
    assert!(!gc_removes(&meta, true, true));
    assert!(!gc_removes(&meta, true, false));
    assert!(!gc_removes(&None, false, true));
    assert!(gc_removes(&None, false, false));
}

#[test]
fn base_and_cache_dirs() {
    assert_eq!(select_rim_base(None, None, "/c", None), Ok("/dev/shm/rim".to_owned()));
    assert_eq!(select_rim_base(Some("/tmp/r"), None, "/c", None), Ok("/tmp/r".to_owned()));
    assert_eq!(cache_dir(Some("/x/cache"), Some("/home/u")), "/x/cache");
    assert_eq!(cache_dir(None, Some("/home/u")), "/home/u/.cache");
    assert_eq!(cache_dir(None, None), ".cache");
}

#[test]
fn storage_profiles() {
    assert_eq!(default_rim_base(None, "/c", None), Ok("/dev/shm/rim".to_owned()));
    assert_eq!(default_rim_base(Some(""), "/c", None), Ok("/dev/shm/rim".to_owned()));
    assert_eq!(default_rim_base(Some("ram"), "/c", None), Ok("/dev/shm/rim".to_owned()));
    assert_eq!(default_rim_base(Some("cache"), "/home/u/.cache", None), Ok("/home/u/.cache/rim".to_owned()));
    assert_eq!(default_rim_base(Some("external"), "/c", Some("/mnt/ext")), Ok("/mnt/ext".to_owned()));
    assert_eq!(
        default_rim_base(Some("external"), "/c", None),
        Err("RIM_PROFILE=external requires RIM_EXTERNAL_BASE".to_owned())
    );
    assert_eq!(
        default_rim_base(Some("floppy"), "/c", None),
        Err("unknown RIM_PROFILE=floppy; expected ram, cache, or external".to_owned())
    );
}

#[test]
fn base_selection_prefers_rim_base_then_profile() {
    assert_eq!(select_rim_base(Some("/b"), Some("cache"), "/c", None), Ok("/b".to_owned()));
    assert_eq!(
        select_rim_base(None, Some("cache"), "/home/u/.cache", None),
        Ok("/home/u/.cache/rim".to_owned())
    );
    assert!(select_rim_base(None, Some("cache"), "/home/u/.cache", None).unwrap().contains("/.cache/rim"));
    assert_eq!(select_rim_base(None, None, "/c", None), Ok("/dev/shm/rim".to_owned()));
    assert_eq!(
        select_rim_base(None, Some("external"), "/c", None),
        Err("RIM_PROFILE=external requires RIM_EXTERNAL_BASE".to_owned())
    );
}

#[test]
fn windows_profiles() {
    assert_eq!(default_rim_base_windows(None, Some("C:/Users/u/AppData/Local"), None), Ok(r"C:/Users/u/AppData/Local\rim".to_owned()));
    assert_eq!(default_rim_base_windows(None, Some(r"D:\cache\"), None), Ok(r"D:\cache\rim".to_owned()));
    assert_eq!(default_rim_base_windows(None, Some("C:"), None), Ok("C:rim".to_owned()));
    assert_eq!(default_rim_base_windows(None, Some("z:"), None), Ok("z:rim".to_owned()));
    assert_eq!(default_rim_base_windows(None, Some("1:"), None), Ok(r"1:\rim".to_owned()));
    assert_eq!(default_rim_base_windows(Some("cache"), None, None), Err("LOCALAPPDATA is not set; set RIM_BASE explicitly".to_owned()));
    assert_eq!(default_rim_base_windows(Some("external"), None, Some("E:/rim")), Ok("E:/rim".to_owned()));
    assert!(default_rim_base_windows(Some("external"), None, None).unwrap_err().contains("RIM_EXTERNAL_BASE"));
    assert!(default_rim_base_windows(Some("ram"), None, None).unwrap_err().contains("not available on native Windows"));
    assert_eq!(
        default_rim_base_windows(Some("disk"), None, None),
        Err("unknown RIM_PROFILE=disk; expected cache, external, or ram".to_owned())
    );
}

const SAMPLE_PATHS: [&str; 22] = [
    "", "/", "//", ".", "./", "..", "a", "a/", "a//b", "a/./b", "./a/b", "a/b/.", "/a/b/", "/./a",
    "/..", "../a", "a/../b", ".a/b", "a/.b", "/dev/shm/rim/app-1/project/node_modules",
    "/dev/shm/rim/app-1/project/node_modules/", "x/./",
];

#[test]
fn components_agree_with_std_path() {
    for p in SAMPLE_PATHS {
        let ours: Vec<String> = components(p).iter().map(|c| c.iter().collect()).collect();
        let std: Vec<String> = std::path::Path::new(p)
            .components()
            .map(|c| c.as_os_str().to_str().unwrap().to_owned())
            .collect();
        assert_eq!(ours, std, "path {p:?}");
        let name = std::path::Path::new(p).file_name().map(|n| n.to_str().unwrap().to_owned());
        assert_eq!(path_file_name(p), name, "path {p:?}");
    }
}

#[test]
fn path_comparisons_agree_with_std_path() {
    for a in SAMPLE_PATHS {
        for b in SAMPLE_PATHS {
            let (pa, pb) = (std::path::Path::new(a), std::path::Path::new(b));
            assert_eq!(same_path(a, b), pa == pb, "{a:?} == {b:?}");
            assert_eq!(path_starts_with(a, b), pa.starts_with(pb), "{a:?} starts with {b:?}");
        }
    }
    assert!(same_path("/n/node_modules/", "/n/node_modules"));
    assert!(!same_path("/n/node_modules", "/n/node_modules/x"));
    assert!(path_starts_with("/dev/shm/rim/x", "/dev/shm"));
    assert!(!path_starts_with("/dev/shmx", "/dev/shm"));
}

fn layer(dir: &str, meta: Option<(&str, &str)>, project_exists: bool) -> GcLayer {
    GcLayer {
        dir: dir.to_owned(),
        meta: meta.map(|(a, b)| (a.to_owned(), b.to_owned())),
        project_exists,
    }
}

#[test]
fn gc_plan_removes_orphans_and_reports_in_dry_run() {
    let layers = vec![
        layer("/b/gone-1", Some(("/gone", "prepare")), false),
        layer("/b/live-2", Some(("/live", "npm")), true),
        layer("/b/bare-3", None, false),
    ];
    let dry = gc_plan(&layers, GcOptions { dry_run: true, orphaned_only: true });
    assert!(dry.remove.is_empty());
    assert_eq!(dry.lines, vec!["would remove /b/gone-1".to_owned()]);
    let real = gc_plan(&layers, GcOptions { dry_run: false, orphaned_only: true });
    assert_eq!(real.remove, vec!["/b/gone-1".to_owned()]);
    assert_eq!(real.lines, vec!["removed /b/gone-1".to_owned(), "removed 1 layer(s)".to_owned()]);
    let all = gc_plan(&layers, GcOptions { dry_run: false, orphaned_only: false });
    assert_eq!(all.remove, vec!["/b/gone-1".to_owned(), "/b/bare-3".to_owned()]);
    assert_eq!(all.lines.last(), Some(&"removed 2 layer(s)".to_owned()));
    let none = gc_plan(&Vec::new(), GcOptions { dry_run: false, orphaned_only: false });
    assert_eq!(none.lines, vec!["removed 0 layer(s)".to_owned()]);
}

#[test]
fn ls_rows_name_recorded_project() {
    assert_eq!(ls_header(), "PROJECT\tMANAGER\tLAYER");
    let text = render_meta("/home/u/app", "prepare");
    assert_eq!(ls_row("/b/app-1", Some(&text)), "/home/u/app\tprepare\t/b/app-1");
    assert_eq!(ls_row("/b/app-1", None), "-\t-\t/b/app-1");
    assert_eq!(ls_row("/b/app-1", Some("garbage")), "-\t-\t/b/app-1");
}
