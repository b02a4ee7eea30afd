use vstd::prelude::*;
use crate::manifests::str_views;
use crate::text::{contains, str_contains, str_eq, string_views};
use crate::paths::{ancestors, lemma_ancestors_are_prefixes, path_ancestors, spec_path_starts_with};

verus! {

/// Files or directories whose presence marks a project's root.
pub open spec fn spec_project_markers() -> Seq<Seq<char>> {
    seq![
        "package.json"@,
        "deno.json"@,
        "deno.jsonc"@,
        "bun.lock"@,
        "bun.lockb"@,
        "pnpm-lock.yaml"@,
        "package-lock.json"@,
        "yarn.lock"@,
        ".git"@,
    ]
}

/// The names that mark a project's root, in the order they are looked for.
pub fn project_markers() -> (r: Vec<&'static str>)
    ensures
        str_views(r@) == spec_project_markers(),
{
    let r = vec![
        "package.json",
        "deno.json",
        "deno.jsonc",
        "bun.lock",
        "bun.lockb",
        "pnpm-lock.yaml",
        "package-lock.json",
        "yarn.lock",
        ".git",
    ];
    assert(str_views(r@) =~= spec_project_markers());
    r
}

/// The first of `anc` from index `i` on whose entry in `found` is true (an
/// entry past the end of `found` counts as false).
pub open spec fn first_marked_from(anc: Seq<Seq<char>>, found: Seq<bool>, i: int) -> Option<
    Seq<char>,
>
    decreases anc.len() - i,
{
    if i < 0 || i >= anc.len() {
        None
    } else if i < found.len() && found[i] {
        Some(anc[i])
    } else {
        first_marked_from(anc, found, i + 1)
    }
}

proof fn lemma_first_marked_is_ancestor(anc: Seq<Seq<char>>, found: Seq<bool>, i: int)
    requires
        0 <= i,
    ensures
        first_marked_from(anc, found, i) matches Some(a) ==> exists|k: int|
            0 <= k < anc.len() && #[trigger] anc[k] == a,
    decreases anc.len() - i,
{
    if i < anc.len() && !(i < found.len() && found[i]) {
        lemma_first_marked_is_ancestor(anc, found, i + 1);
    }
}

/// The first of the ancestors of `start` (from `start` itself up, as
/// `ancestors` lists them) whose entry in `found` is true.
fn first_marked_ancestor(start: &str, found: &Vec<bool>) -> (r: Option<String>)
    ensures
        match r {
            Some(a) => first_marked_from(path_ancestors(start@), found@, 0) == Some(a@),
            None => first_marked_from(path_ancestors(start@), found@, 0) is None,
        },
        r matches Some(a) ==> a@.is_prefix_of(start@) && spec_path_starts_with(start@, a@),
{
    let anc = ancestors(start);
    let ghost all = path_ancestors(start@);
    proof {
        lemma_ancestors_are_prefixes(start@);
        lemma_first_marked_is_ancestor(all, found@, 0);
    }
    let mut i: usize = 0;
    while i < anc.len()
        invariant
            i <= anc.len(),
            string_views(anc@) == all,
            all == path_ancestors(start@),
            first_marked_from(all, found@, i as int) == first_marked_from(all, found@, 0),
        decreases anc.len() - i,
    {
        if i < found.len() && found[i] {
            assert(string_views(anc@)[i as int] == anc@[i as int]@);
            proof {
                lemma_ancestors_are_prefixes(start@);
                crate::ancestry::lemma_ancestors_are_path_prefixes(start@);
            }
            assert(all[i as int].is_prefix_of(start@));
            assert(spec_path_starts_with(start@, all[i as int]));
            return Some(anc[i].clone());
        }
        i = i + 1;
    }
    None
}

/// The root of the project that holds `start`: the first of its ancestors,
/// from `start` itself up (as `ancestors(start)` lists them), whose entry in
/// `found` says it holds a project marker; `start` when none does. The root
/// is always a prefix of `start`, and `start` starts with it component by
/// component.
pub fn find_project_root(start: &str, found: &Vec<bool>) -> (r: String)
    ensures
        r@ == match first_marked_from(path_ancestors(start@), found@, 0) {
            Some(a) => a,
            None => start@,
        },
        r@.is_prefix_of(start@),
        spec_path_starts_with(start@, r@),
{
    match first_marked_ancestor(start, found) {
        Some(p) => p,
        None => {
            assert(start@.subrange(0, start@.len() as int) =~= start@);
            let ghost c = crate::paths::path_components(start@);
            assert(c.subrange(0, c.len() as int) =~= c);
            start.to_owned()
        },
    }
}

/// The first of the ancestors of `start`, from `start` itself up (as
/// `ancestors(start)` lists them), whose entry in `exists` says it exists;
/// it is a prefix of `start`, and `start` starts with it component by
/// component.
pub fn existing_ancestor(start: &str, exists: &Vec<bool>) -> (r: Option<String>)
    ensures
        match r {
            Some(a) => first_marked_from(path_ancestors(start@), exists@, 0) == Some(a@),
            None => first_marked_from(path_ancestors(start@), exists@, 0) is None,
        },
        r matches Some(a) ==> a@.is_prefix_of(start@) && spec_path_starts_with(start@, a@),
{
    first_marked_ancestor(start, exists)
}

/// Files whose presence shows a workspace (monorepo) setup.
pub open spec fn spec_workspace_markers() -> Seq<Seq<char>> {
    seq!["pnpm-workspace.yaml"@, "turbo.json"@, "rush.json"@, "lerna.json"@]
}

/// The files whose presence shows a workspace setup.
pub fn workspace_markers() -> (r: Vec<&'static str>)
    ensures
        str_views(r@) == spec_workspace_markers(),
{
    let r = vec!["pnpm-workspace.yaml", "turbo.json", "rush.json", "lerna.json"];
    assert(str_views(r@) =~= spec_workspace_markers());
    r
}

pub open spec fn spec_workspace_detected(marker_found: bool, package_json: Option<Seq<char>>) -> bool {
    marker_found || match package_json {
        Some(p) => contains(p, "\"workspaces\""@),
        None => false,
    }
}

/// A workspace setup is detected when one of the workspace files exists or
/// the readable `package.json` declares `"workspaces"`.
pub fn workspace_detected(marker_found: bool, package_json: Option<&str>) -> (r: bool)
    ensures
        r == spec_workspace_detected(
            marker_found,
            match package_json {
                Some(p) => Some(p@),
                None => None,
            },
        ),
{
    marker_found || match package_json {
        Some(p) => str_contains(p, "\"workspaces\""),
        None => false,
    }
}

/// The script names in `package.json` that run during an install.
pub open spec fn spec_lifecycle_needles() -> Seq<Seq<char>> {
    seq!["\"preinstall\""@, "\"install\""@, "\"postinstall\""@, "\"prepare\""@]
}

pub open spec fn spec_lifecycle_scripts_detected(package_json: Option<Seq<char>>) -> bool {
    match package_json {
        Some(p) => exists|i: int|
            0 <= i < spec_lifecycle_needles().len() && contains(
                p,
                #[trigger] spec_lifecycle_needles()[i],
            ),
        None => false,
    }
}

/// Lifecycle scripts are detected when the readable `package.json` mentions
/// `"preinstall"`, `"install"`, `"postinstall"` or `"prepare"`.
pub fn lifecycle_scripts_detected(package_json: Option<&str>) -> (r: bool)
    ensures
        r == spec_lifecycle_scripts_detected(
            match package_json {
                Some(p) => Some(p@),
                None => None,
            },
        ),
{
    match package_json {
        None => false,
        Some(p) => {
            let needles = vec!["\"preinstall\"", "\"install\"", "\"postinstall\"", "\"prepare\""];
            assert(str_views(needles@) =~= spec_lifecycle_needles());
            let mut i: usize = 0;
            while i < needles.len()
                invariant
                    i <= needles.len(),
                    package_json == Some(p),
                    str_views(needles@) == spec_lifecycle_needles(),
                    forall|k: int|
                        0 <= k < i ==> !contains(p@, #[trigger] spec_lifecycle_needles()[k]),
                decreases needles.len() - i,
            {
                assert(str_views(needles@)[i as int] == needles@[i as int]@);
                if str_contains(p, needles[i]) {
                    assert(contains(p@, spec_lifecycle_needles()[i as int]));
                    return true;
                }
                i = i + 1;
            }
            false
        },
    }
}

/// Packages whose installs are large (browsers, native binaries), in the
/// order they are reported.
pub open spec fn spec_heavy_packages() -> Seq<Seq<char>> {
    seq!["next"@, "playwright"@, "@playwright/test"@, "puppeteer"@, "electron"@, "cypress"@]
}

/// `name` in double quotes, as a key of `package.json` names a package.
pub open spec fn quoted(name: Seq<char>) -> Seq<char> {
    seq!['"'] + name + seq!['"']
}

/// The names among `names` that `package_json` mentions in quotes, in order.
pub open spec fn mentioned(package_json: Seq<char>, names: Seq<Seq<char>>) -> Seq<Seq<char>>
    decreases names.len(),
{
    if names.len() == 0 {
        seq![]
    } else {
        let r = mentioned(package_json, names.drop_last());
        if contains(package_json, quoted(names.last())) {
            r.push(names.last())
        } else {
            r
        }
    }
}

/// The heavy packages that the readable `package.json` mentions, in the
/// order of `spec_heavy_packages`; none when it cannot be read.
pub open spec fn spec_heavy_packages_detected(package_json: Option<Seq<char>>) -> Seq<Seq<char>> {
    match package_json {
        Some(p) => mentioned(p, spec_heavy_packages()),
        None => seq![],
    }
}

/// The heavy packages that `package.json` mentions, for `doctor --suggest`.
pub fn heavy_packages_detected(package_json: Option<&str>) -> (r: Vec<&'static str>)
    ensures
        str_views(r@) == spec_heavy_packages_detected(
            match package_json {
                Some(p) => Some(p@),
                None => None,
            },
        ),
{
    let mut r: Vec<&'static str> = Vec::new();
    match package_json {
        None => {
            assert(str_views(r@) =~= Seq::<Seq<char>>::empty());
            r
        },
        Some(p) => {
            let names = vec!["next", "playwright", "@playwright/test", "puppeteer", "electron", "cypress"];
            assert(str_views(names@) =~= spec_heavy_packages());
            let mut i: usize = 0;
            while i < names.len()
                invariant
                    i <= names.len(),
                    str_views(names@) == spec_heavy_packages(),
                    str_views(r@) == mentioned(p@, spec_heavy_packages().take(i as int)),
                decreases names.len() - i,
            {
                let name = names[i];
                let mut q = "\"".to_owned();
                q.append(name);
                q.append("\"");
                proof {
                    reveal_strlit("\"");
                }
                assert(q@ =~= quoted(name@));
                let ghost t = spec_heavy_packages().take(i + 1);
                assert(t.drop_last() =~= spec_heavy_packages().take(i as int));
                assert(str_views(names@)[i as int] == name@);
                assert(t.last() == name@);
                if str_contains(p, q.as_str()) {
                    r.push(name);
                    assert(str_views(r@) =~= mentioned(p@, spec_heavy_packages().take(i as int)).push(name@));
                }
                i = i + 1;
            }
            assert(spec_heavy_packages().take(names.len() as int) =~= spec_heavy_packages());
            r
        },
    }
}

/// The placeholder file that keeps the layer's `node_modules` directory.
pub open spec fn is_keep_file(name: Seq<char>) -> bool {
    name == ".rim-keep"@
}

/// Every name is the placeholder.
pub open spec fn all_keep_files(e: Seq<Seq<char>>) -> bool {
    forall|i: int| 0 <= i < e.len() ==> is_keep_file(#[trigger] e[i])
}

/// Whether the layer has no dependencies installed: its `node_modules` is
/// missing or unreadable (`None`), or holds nothing but the `.rim-keep`
/// placeholder.
pub open spec fn spec_dependencies_missing(entries: Option<Seq<Seq<char>>>) -> bool {
    match entries {
        None => true,
        Some(e) => all_keep_files(e),
    }
}

/// Whether dependencies still have to be installed, given the names in the
/// layer's `node_modules` (`None` when it is missing or unreadable).
pub fn dependencies_missing(entries: Option<&Vec<String>>) -> (r: bool)
    ensures
        r == spec_dependencies_missing(
            match entries {
                Some(e) => Some(crate::text::string_views(e@)),
                None => None,
            },
        ),
{
    match entries {
        None => true,
        Some(e) => {
            let mut i: usize = 0;
            while i < e.len()
                invariant
                    i <= e.len(),
                    entries == Some(e),
                    forall|k: int| 0 <= k < i ==> (#[trigger] e@[k])@ == ".rim-keep"@,
                decreases e.len() - i,
            {
                if !str_eq(e[i].as_str(), ".rim-keep") {
                    assert(crate::text::string_views(e@)[i as int] == e@[i as int]@);
                    assert(!is_keep_file(crate::text::string_views(e@)[i as int]));
                    return false;
                }
                i = i + 1;
            }
            assert forall|k: int|
                0 <= k < crate::text::string_views(e@).len() implies #[trigger] crate::text::string_views(
                e@,
            )[k] == ".rim-keep"@ by {
                assert(crate::text::string_views(e@)[k] == e@[k]@);
            }
            true
        },
    }
}

/// Lifecycle scripts are detected exactly when `package.json` can be read
/// and mentions one of the quoted script names `"preinstall"`, `"install"`,
/// `"postinstall"` or `"prepare"`; each of the four alone is enough.
pub proof fn lemma_lifecycle_scripts_rules(p: Seq<char>)
    ensures
        contains(p, "\"preinstall\""@) ==> spec_lifecycle_scripts_detected(Some(p)),
        contains(p, "\"install\""@) ==> spec_lifecycle_scripts_detected(Some(p)),
        contains(p, "\"postinstall\""@) ==> spec_lifecycle_scripts_detected(Some(p)),
        contains(p, "\"prepare\""@) ==> spec_lifecycle_scripts_detected(Some(p)),
        spec_lifecycle_scripts_detected(Some(p)) ==> contains(p, "\"preinstall\""@) || contains(
            p,
            "\"install\""@,
        ) || contains(p, "\"postinstall\""@) || contains(p, "\"prepare\""@),
        !spec_lifecycle_scripts_detected(None),
{
    let n = spec_lifecycle_needles();
    assert(n[0] == "\"preinstall\""@);
    assert(n[1] == "\"install\""@);
    assert(n[2] == "\"postinstall\""@);
    assert(n[3] == "\"prepare\""@);
}

/// A workspace is detected exactly when one of the workspace files exists
/// or the readable `package.json` mentions `"workspaces"`.
pub proof fn lemma_workspace_rules(marker_found: bool, package_json: Option<Seq<char>>)
    ensures
        marker_found ==> spec_workspace_detected(marker_found, package_json),
        package_json matches Some(p) && contains(p, "\"workspaces\""@) ==> spec_workspace_detected(
            marker_found,
            package_json,
        ),
        !marker_found && package_json is None ==> !spec_workspace_detected(
            marker_found,
            package_json,
        ),
        !marker_found && (package_json matches Some(p) && !contains(p, "\"workspaces\""@))
            ==> !spec_workspace_detected(marker_found, package_json),
{
}

/// Dependencies count as missing exactly when the layer's `node_modules`
/// cannot be read or holds nothing but `.rim-keep`: one other entry means
/// they are installed.
pub proof fn lemma_dependencies_missing_rules(entries: Seq<Seq<char>>, k: int)
    ensures
        spec_dependencies_missing(None),
        entries.len() == 0 ==> spec_dependencies_missing(Some(entries)),
        (forall|i: int| 0 <= i < entries.len() ==> entries[i] == ".rim-keep"@)
            ==> spec_dependencies_missing(Some(entries)),
        0 <= k < entries.len() && entries[k] != ".rim-keep"@ ==> !spec_dependencies_missing(
            Some(entries),
        ),
{
    if 0 <= k < entries.len() && entries[k] != ".rim-keep"@ {
        assert(!is_keep_file(entries[k]));
    }
}

/// The heavy packages are reported in their fixed order, each exactly when
/// `package.json` mentions its name in quotes: `next`, `playwright`,
/// `@playwright/test`, `puppeteer`, `electron`, `cypress`.
pub proof fn lemma_heavy_packages_rules(p: Seq<char>)
    ensures
        spec_heavy_packages_detected(None).len() == 0,
        contains(p, "\"next\""@) ==> spec_heavy_packages_detected(Some(p)).contains("next"@),
        contains(p, "\"cypress\""@) ==> spec_heavy_packages_detected(Some(p)).contains(
            "cypress"@,
        ),
        forall|x: Seq<char>|
            #[trigger] spec_heavy_packages_detected(Some(p)).contains(x) ==> contains(
                p,
                quoted(x),
            ) && spec_heavy_packages().contains(x),
{
    lemma_mentioned_rules(p, spec_heavy_packages());
    let h = spec_heavy_packages();
    assert(h[0] == "next"@);
    assert(h[5] == "cypress"@);
    reveal_strlit("next");
    reveal_strlit("cypress");
    assert(quoted("next"@) =~= "\"next\""@) by {
        reveal_strlit("\"next\"");
    }
    assert(quoted("cypress"@) =~= "\"cypress\""@) by {
        reveal_strlit("\"cypress\"");
    }
}

proof fn lemma_mentioned_rules(p: Seq<char>, names: Seq<Seq<char>>)
    ensures
        forall|k: int|
            0 <= k < names.len() && contains(p, quoted(names[k])) ==> #[trigger] mentioned(
                p,
                names,
            ).contains(names[k]),
        forall|x: Seq<char>|
            #[trigger] mentioned(p, names).contains(x) ==> contains(p, quoted(x))
                && names.contains(x),
    decreases names.len(),
{
    if names.len() > 0 {
        let d = names.drop_last();
        lemma_mentioned_rules(p, d);
        let r = mentioned(p, d);
        assert forall|k: int|
            0 <= k < names.len() && contains(p, quoted(names[k])) implies #[trigger] mentioned(
            p,
            names,
        ).contains(names[k]) by {
            if k < names.len() - 1 {
                assert(d[k] == names[k]);
                assert(r.contains(d[k]));
                let j = choose|j: int| 0 <= j < r.len() && r[j] == d[k];
                if contains(p, quoted(names.last())) {
                    assert(r.push(names.last())[j] == names[k]);
                }
            } else {
                assert(r.push(names.last())[r.len() as int] == names[k]);
            }
        }
        assert forall|x: Seq<char>| #[trigger] mentioned(p, names).contains(x) implies contains(
            p,
            quoted(x),
        ) && names.contains(x) by {
            let m = mentioned(p, names);
            let j = choose|j: int| 0 <= j < m.len() && m[j] == x;
            if j < r.len() {
                assert(r[j] == x);
                assert(r.contains(x));
                let q = choose|q: int| 0 <= q < d.len() && d[q] == x;
                assert(names[q] == x);
            } else {
                assert(x == names.last());
                assert(names[names.len() - 1] == x);
            }
        }
    }
}

/// The files that mark a project's root are `package.json`, the deno
/// configurations, every lockfile and `.git`; the files that show a
/// workspace are `pnpm-workspace.yaml`, `turbo.json`, `rush.json` and
/// `lerna.json`; the heavy packages are `next`, `playwright`,
/// `@playwright/test`, `puppeteer`, `electron` and `cypress`.
pub proof fn lemma_marker_lists(name: Seq<char>)
    ensures
        name == "package.json"@ || name == "deno.json"@ || name == "deno.jsonc"@ || name == "bun.lock"@ || name == "bun.lockb"@ || name == "pnpm-lock.yaml"@ || name == "package-lock.json"@ || name == "yarn.lock"@ || name == ".git"@ ==> spec_project_markers().contains(name),
        name == "pnpm-workspace.yaml"@ || name == "turbo.json"@ || name == "rush.json"@ || name == "lerna.json"@ ==> spec_workspace_markers().contains(name),
        name == "next"@ || name == "playwright"@ || name == "@playwright/test"@ || name == "puppeteer"@ || name == "electron"@ || name == "cypress"@ ==> spec_heavy_packages().contains(name),
{
    let p = spec_project_markers();
    let w = spec_workspace_markers();
    let h = spec_heavy_packages();
    if name == "package.json"@ || name == "deno.json"@ || name == "deno.jsonc"@ || name == "bun.lock"@ || name == "bun.lockb"@ || name == "pnpm-lock.yaml"@ || name == "package-lock.json"@ || name == "yarn.lock"@ || name == ".git"@ {
        if name == "package.json"@ {
            assert(p[0] == name);
        } else if name == "deno.json"@ {
            assert(p[1] == name);
        } else if name == "deno.jsonc"@ {
            assert(p[2] == name);
        } else if name == "bun.lock"@ {
            assert(p[3] == name);
        } else if name == "bun.lockb"@ {
            assert(p[4] == name);
        } else if name == "pnpm-lock.yaml"@ {
            assert(p[5] == name);
        } else if name == "package-lock.json"@ {
            assert(p[6] == name);
        } else if name == "yarn.lock"@ {
            assert(p[7] == name);
        } else if name == ".git"@ {
            assert(p[8] == name);
        }
    }
    if name == "pnpm-workspace.yaml"@ || name == "turbo.json"@ || name == "rush.json"@ || name == "lerna.json"@ {
        if name == "pnpm-workspace.yaml"@ {
            assert(w[0] == name);
        } else if name == "turbo.json"@ {
            assert(w[1] == name);
        } else if name == "rush.json"@ {
            assert(w[2] == name);
        } else if name == "lerna.json"@ {
            assert(w[3] == name);
        }
    }
    if name == "next"@ || name == "playwright"@ || name == "@playwright/test"@ || name == "puppeteer"@ || name == "electron"@ || name == "cypress"@ {
        if name == "next"@ {
            assert(h[0] == name);
        } else if name == "playwright"@ {
            assert(h[1] == name);
        } else if name == "@playwright/test"@ {
            assert(h[2] == name);
        } else if name == "puppeteer"@ {
            assert(h[3] == name);
        } else if name == "electron"@ {
            assert(h[4] == name);
        } else if name == "cypress"@ {
            assert(h[5] == name);
        }
    }
}

} // verus!
