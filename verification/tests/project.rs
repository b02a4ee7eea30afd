use rim::paths::ancestors;
use rim::project::{
    dependencies_missing, existing_ancestor, find_project_root, heavy_packages_detected,
    lifecycle_scripts_detected, project_markers, workspace_detected, workspace_markers,
};

#[test]
fn project_root_is_nearest_marked_ancestor() {
    assert_eq!(ancestors("/a/b/c"), vec!["/a/b/c", "/a/b", "/a", "/"]);
    assert_eq!(find_project_root("/a/b/c", &vec![false, true, true, false]), "/a/b");
}

#[test]
fn project_root_falls_back_to_start() {
    assert_eq!(find_project_root("/a/b", &vec![false, false, false]), "/a/b");
    assert_eq!(find_project_root("/a/b", &Vec::new()), "/a/b");
}

#[test]
fn existing_ancestor_is_first_existing() {
    assert_eq!(existing_ancestor("/x/y/z", &vec![false, false, true, true]), Some("/x".to_owned()));
    assert_eq!(ancestors("rel"), vec!["rel", ""]);
    assert_eq!(existing_ancestor("rel", &vec![false, false]), None);
}

#[test]
fn ancestors_agree_with_std_path() {
    for p in [
        "", "/", "//", ".", "./", "..", "a", "a/", "a//b", "a/./b", "./a/b", "a/b/.", "/a/b/",
        "/./a", "/..", "../a", "a/../b", ".a/b", "a/.b", "/home/u/code/app", "x/./", "//a//b//",
        "./.", "/a/./.", "a/..",
    ] {
        let std: Vec<String> =
            std::path::Path::new(p).ancestors().map(|a| a.to_str().unwrap().to_owned()).collect();
        assert_eq!(ancestors(p), std, "path {p:?}");
        for k in 0..std.len() {
            let mut found = vec![false; std.len()];
            found[k] = true;
            let root = find_project_root(p, &found);
            assert_eq!(root, std[k]);
            assert!(std::path::Path::new(p).starts_with(&root), "{p:?} starts with {root:?}");
        }
    }
}

#[test]
fn marker_lists() {
    assert_eq!(
        project_markers(),
        vec![
            "package.json",
            "deno.json",
            "deno.jsonc",
            "bun.lock",
            "bun.lockb",
            "pnpm-lock.yaml",
            "package-lock.json",
            "yarn.lock",
            ".git"
        ]
    );
    assert_eq!(workspace_markers(), vec!["pnpm-workspace.yaml", "turbo.json", "rush.json", "lerna.json"]);
}

#[test]
fn workspace_detection() {
    assert!(workspace_detected(true, None));
    assert!(workspace_detected(false, Some("{\"workspaces\": [\"packages/*\"]}")));
    assert!(!workspace_detected(false, Some("{\"name\": \"my-workspaces\"}")));
    assert!(!workspace_detected(false, None));
}

#[test]
fn lifecycle_script_detection() {
    assert!(lifecycle_scripts_detected(Some("{\"scripts\":{\"postinstall\":\"node x\"}}")));
    assert!(lifecycle_scripts_detected(Some("{\"scripts\":{\"prepare\":\"husky\"}}")));
    assert!(lifecycle_scripts_detected(Some("{\"scripts\":{\"install\":\"make\"}}")));
    assert!(!lifecycle_scripts_detected(Some("{\"scripts\":{\"dev\":\"next dev\"}}")));
    assert!(!lifecycle_scripts_detected(None));
}

#[test]
fn dependencies_missing_rules() {
    assert!(dependencies_missing(None));
    assert!(dependencies_missing(Some(&Vec::new())));
    assert!(dependencies_missing(Some(&vec![".rim-keep".to_owned()])));
    assert!(!dependencies_missing(Some(&vec![".rim-keep".to_owned(), "zod".to_owned()])));
    assert!(!dependencies_missing(Some(&vec!["fake".to_owned()])));
}

#[test]
fn heavy_packages_are_reported_in_order() {
    let pj = "{\"dependencies\":{\"next\":\"16.0.0\"},\"scripts\":{\"postinstall\":\"prisma generate\"},\"workspaces\":[\"packages/*\"]}\n";
    assert_eq!(heavy_packages_detected(Some(pj)), vec!["next"]);
    assert!(workspace_detected(false, Some(pj)));
    assert!(lifecycle_scripts_detected(Some(pj)));
    let both = "{\"devDependencies\":{\"cypress\":\"1\",\"@playwright/test\":\"1\",\"nextra\":\"1\"}}";
    assert_eq!(heavy_packages_detected(Some(both)), vec!["@playwright/test", "cypress"]);
    assert!(heavy_packages_detected(None).is_empty());
    assert!(heavy_packages_detected(Some("{}")).is_empty());
}
