use vstd::prelude::*;
use crate::hash::{short_hash, spec_short_hash};
use crate::paths::{join_path, path_file_name, path_join, spec_path_file_name};

verus! {

/// Which path `rim path` prints.
#[derive(Clone, Copy, Debug, PartialEq, Eq, Structural)]
pub enum PathChoice {
    /// The layer directory (the default).
    RimDir,
    /// The layer's `node_modules` (`--node-modules`).
    NodeModules,
    /// The shadow project (`--shadow`).
    Shadow,
    /// The base of all layers (`--base`).
    Base,
}

pub open spec fn spec_path_choice(arg: Option<Seq<char>>) -> Result<PathChoice, Seq<char>> {
    match arg {
        None => Ok(PathChoice::RimDir),
        Some(a) => if a == "--node-modules"@ {
            Ok(PathChoice::NodeModules)
        } else if a == "--shadow"@ {
            Ok(PathChoice::Shadow)
        } else if a == "--base"@ {
            Ok(PathChoice::Base)
        } else {
            Err("unknown path option: "@ + a)
        },
    }
}

/// The path that `rim path`'s optional argument selects.
pub fn path_choice(arg: Option<&str>) -> (r: Result<PathChoice, String>)
    ensures
        match r {
            Ok(c) => spec_path_choice(crate::config::opt_view(arg)) == Ok::<PathChoice, Seq<char>>(c),
            Err(e) => spec_path_choice(crate::config::opt_view(arg)) == Err::<PathChoice, Seq<char>>(e@),
        },
{
    match arg {
        None => Ok(PathChoice::RimDir),
        Some(a) => {
            if crate::text::str_eq(a, "--node-modules") {
                Ok(PathChoice::NodeModules)
            } else if crate::text::str_eq(a, "--shadow") {
                Ok(PathChoice::Shadow)
            } else if crate::text::str_eq(a, "--base") {
                Ok(PathChoice::Base)
            } else {
                let mut m = "unknown path option: ".to_owned();
                m.append(a);
                Err(m)
            }
        },
    }
}

/// The paths of one project's dependency layer.
#[derive(Clone, Debug)]
pub struct RimContext {
    pub project_root: String,
    pub rim_base: String,
    pub rim_dir: String,
    pub shadow_project: String,
    pub node_modules: String,
    pub npm_cache: String,
    pub xdg_cache: String,
    pub tmp: String,
    pub deno_dir: String,
    pub playwright_browsers: String,
    pub bun_cache: String,
    pub pnpm_store: String,
}

/// The name of a project's layer directory: the project directory's name
/// (`project` when it has none), a hyphen and the path's short hash.
pub open spec fn layer_name(project_root: Seq<char>) -> Seq<char> {
    let name = match spec_path_file_name(project_root) {
        Some(n) => n,
        None => "project"@,
    };
    name + "-"@ + spec_short_hash(project_root)
}

/// A single path component: nonempty, with no `/`.
pub open spec fn is_component(n: Seq<char>) -> bool {
    n.len() > 0 && !n.contains('/')
}

impl RimContext {
    /// The layer of the project at `project_root`, under the base `rim_base`:
    /// `<base>/<name>-<hash>`, its shadow project and its cache directories.
    pub open spec fn wf(self) -> bool {
        let rim_dir = path_join(self.rim_base@, layer_name(self.project_root@));
        let shadow = path_join(rim_dir, "project"@);
        &&& is_component(layer_name(self.project_root@))
        &&& self.rim_dir@ == rim_dir
        &&& self.shadow_project@ == shadow
        &&& self.node_modules@ == path_join(shadow, "node_modules"@)
        &&& self.npm_cache@ == path_join(rim_dir, "npm-cache"@)
        &&& self.xdg_cache@ == path_join(rim_dir, "xdg-cache"@)
        &&& self.tmp@ == path_join(rim_dir, "tmp"@)
        &&& self.deno_dir@ == path_join(rim_dir, "deno-cache"@)
        &&& self.playwright_browsers@ == path_join(rim_dir, "playwright-browsers"@)
        &&& self.bun_cache@ == path_join(rim_dir, "bun-cache"@)
        &&& self.pnpm_store@ == path_join(rim_dir, "pnpm-store"@)
    }

    /// The directories that make up the layer, in the order they are created.
    pub open spec fn spec_layout_dirs(self) -> Seq<Seq<char>> {
        seq![
            self.rim_dir@,
            self.shadow_project@,
            self.node_modules@,
            self.npm_cache@,
            self.xdg_cache@,
            self.tmp@,
            self.deno_dir@,
            self.playwright_browsers@,
            self.bun_cache@,
            self.pnpm_store@,
        ]
    }

    /// The directories that make up the layer, in the order they are created.
    pub fn layout_dirs(&self) -> (r: Vec<String>)
        ensures
            crate::text::string_views(r@) == self.spec_layout_dirs(),
    {
        let r = vec![
            self.rim_dir.clone(),
            self.shadow_project.clone(),
            self.node_modules.clone(),
            self.npm_cache.clone(),
            self.xdg_cache.clone(),
            self.tmp.clone(),
            self.deno_dir.clone(),
            self.playwright_browsers.clone(),
            self.bun_cache.clone(),
            self.pnpm_store.clone(),
        ];
        assert(crate::text::string_views(r@) =~= self.spec_layout_dirs());
        r
    }

    /// The `node_modules` entry of the real project, which links into the layer.
    pub fn project_link(&self) -> (r: String)
        ensures
            r@ == path_join(self.project_root@, "node_modules"@),
    {
        join_path(self.project_root.as_str(), "node_modules")
    }

    /// The cache that a package manager fills during an install: npm's cache,
    /// pnpm's store, bun's cache, or the XDG cache that yarn uses; other tools
    /// have none.
    pub open spec fn spec_tool_cache(self, tool: Seq<char>) -> Option<Seq<char>> {
        if tool == "npm"@ {
            Some(self.npm_cache@)
        } else if tool == "pnpm"@ {
            Some(self.pnpm_store@)
        } else if tool == "bun"@ {
            Some(self.bun_cache@)
        } else if tool == "yarn"@ {
            Some(self.xdg_cache@)
        } else {
            None
        }
    }

    /// The cache directory of `tool` in the layer, if it has one.
    pub fn tool_cache(&self, tool: &str) -> (r: Option<String>)
        ensures
            match r {
                Some(d) => self.spec_tool_cache(tool@) == Some(d@),
                None => self.spec_tool_cache(tool@) is None,
            },
    {
        if crate::text::str_eq(tool, "npm") {
            Some(self.npm_cache.clone())
        } else if crate::text::str_eq(tool, "pnpm") {
            Some(self.pnpm_store.clone())
        } else if crate::text::str_eq(tool, "bun") {
            Some(self.bun_cache.clone())
        } else if crate::text::str_eq(tool, "yarn") {
            Some(self.xdg_cache.clone())
        } else {
            None
        }
    }

    /// The layer's cache directories: everything but the shadow project.
    pub open spec fn spec_cache_dirs(self) -> Seq<Seq<char>> {
        seq![
            self.npm_cache@,
            self.xdg_cache@,
            self.tmp@,
            self.deno_dir@,
            self.playwright_browsers@,
            self.bun_cache@,
            self.pnpm_store@,
        ]
    }

    /// The layer's cache directories, which `clean --cache-only` removes.
    pub fn cache_dirs(&self) -> (r: Vec<String>)
        ensures
            crate::text::string_views(r@) == self.spec_cache_dirs(),
    {
        let r = vec![
            self.npm_cache.clone(),
            self.xdg_cache.clone(),
            self.tmp.clone(),
            self.deno_dir.clone(),
            self.playwright_browsers.clone(),
            self.bun_cache.clone(),
            self.pnpm_store.clone(),
        ];
        assert(crate::text::string_views(r@) =~= self.spec_cache_dirs());
        r
    }

    /// The path that `choice` selects.
    pub fn chosen_path(&self, choice: PathChoice) -> (r: String)
        ensures
            r@ == match choice {
                PathChoice::RimDir => self.rim_dir@,
                PathChoice::NodeModules => self.node_modules@,
                PathChoice::Shadow => self.shadow_project@,
                PathChoice::Base => self.rim_base@,
            },
    {
        match choice {
            PathChoice::RimDir => self.rim_dir.clone(),
            PathChoice::NodeModules => self.node_modules.clone(),
            PathChoice::Shadow => self.shadow_project.clone(),
            PathChoice::Base => self.rim_base.clone(),
        }
    }

    /// The file in the layer that records which project it belongs to.
    pub fn metadata_path(&self) -> (r: String)
        ensures
            r@ == path_join(self.rim_dir@, ".rim-meta.json"@),
    {
        join_path(self.rim_dir.as_str(), ".rim-meta.json")
    }

    /// The environment variables that point a package manager's caches into
    /// the layer, in the order they are set and reported.
    pub open spec fn spec_cache_env(self) -> Seq<(Seq<char>, Seq<char>)> {
        seq![
            ("npm_config_cache"@, self.npm_cache@),
            ("XDG_CACHE_HOME"@, self.xdg_cache@),
            ("TMPDIR"@, self.tmp@),
            ("DENO_DIR"@, self.deno_dir@),
            ("PLAYWRIGHT_BROWSERS_PATH"@, self.playwright_browsers@),
            ("BUN_INSTALL_CACHE_DIR"@, self.bun_cache@),
        ]
    }

    /// The cache environment of the layer: names and values.
    pub fn cache_env(&self) -> (r: Vec<(String, String)>)
        ensures
            r@.len() == self.spec_cache_env().len(),
            forall|i: int|
                0 <= i < r@.len() ==> (#[trigger] r@[i]).0@ == self.spec_cache_env()[i].0
                    && r@[i].1@ == self.spec_cache_env()[i].1,
    {
        let r = vec![
            ("npm_config_cache".to_owned(), self.npm_cache.clone()),
            ("XDG_CACHE_HOME".to_owned(), self.xdg_cache.clone()),
            ("TMPDIR".to_owned(), self.tmp.clone()),
            ("DENO_DIR".to_owned(), self.deno_dir.clone()),
            ("PLAYWRIGHT_BROWSERS_PATH".to_owned(), self.playwright_browsers.clone()),
            ("BUN_INSTALL_CACHE_DIR".to_owned(), self.bun_cache.clone()),
        ];
        r
    }
}

proof fn lemma_join_extends(base: Seq<char>, name: Seq<char>)
    requires
        name.len() > 0,
        name[0] != '/',
    ensures
        base.is_prefix_of(path_join(base, name)),
        path_join(base, name).len() > base.len(),
{
    assert(path_join(base, name).subrange(0, base.len() as int) =~= base);
}

/// Every directory of a layer lies inside the layer directory, and the
/// project's `node_modules` lies inside the shadow project: laying out,
/// installing into and cleaning a layer never touch paths outside it.
pub proof fn lemma_layer_dirs_inside_layer(ctx: RimContext)
    requires
        ctx.wf(),
    ensures
        forall|i: int|
            1 <= i < ctx.spec_layout_dirs().len() ==> ctx.rim_dir@.is_prefix_of(
                #[trigger] ctx.spec_layout_dirs()[i],
            ),
        ctx.shadow_project@.is_prefix_of(ctx.node_modules@),
{
    reveal_strlit("project");
    reveal_strlit("node_modules");
    reveal_strlit("npm-cache");
    reveal_strlit("xdg-cache");
    reveal_strlit("tmp");
    reveal_strlit("deno-cache");
    reveal_strlit("playwright-browsers");
    reveal_strlit("bun-cache");
    reveal_strlit("pnpm-store");
    let r = ctx.rim_dir@;
    lemma_join_extends(r, "project"@);
    lemma_join_extends(ctx.shadow_project@, "node_modules"@);
    lemma_join_extends(r, "npm-cache"@);
    lemma_join_extends(r, "xdg-cache"@);
    lemma_join_extends(r, "tmp"@);
    lemma_join_extends(r, "deno-cache"@);
    lemma_join_extends(r, "playwright-browsers"@);
    lemma_join_extends(r, "bun-cache"@);
    lemma_join_extends(r, "pnpm-store"@);
    assert(r.is_prefix_of(ctx.node_modules@)) by {
        assert(ctx.node_modules@.subrange(0, r.len() as int) =~= ctx.shadow_project@.subrange(
            0,
            r.len() as int,
        ));
    }
}

/// A layer is one directory directly inside the base: its directory is the
/// base joined with a single component, the layer name, so it starts with
/// the base, and removing it leaves the base's other entries alone.
pub proof fn lemma_layer_inside_base(ctx: RimContext)
    requires
        ctx.wf(),
    ensures
        ctx.rim_base@.is_prefix_of(ctx.rim_dir@),
        ctx.rim_dir@.len() > ctx.rim_base@.len(),
        ctx.rim_dir@ == path_join(ctx.rim_base@, layer_name(ctx.project_root@)),
        is_component(layer_name(ctx.project_root@)),
        forall|i: int|
            0 <= i < ctx.spec_layout_dirs().len() ==> ctx.rim_base@.is_prefix_of(
                #[trigger] ctx.spec_layout_dirs()[i],
            ),
        ctx.rim_base@.is_prefix_of(ctx.node_modules@),
{
    let n = layer_name(ctx.project_root@);
    assert(n[0] != '/') by {
        assert(n.contains(n[0]));
    }
    lemma_join_extends(ctx.rim_base@, n);
    lemma_layer_dirs_inside_layer(ctx);
    let b = ctx.rim_base@;
    let r = ctx.rim_dir@;
    assert forall|i: int| 0 <= i < ctx.spec_layout_dirs().len() implies b.is_prefix_of(
        #[trigger] ctx.spec_layout_dirs()[i],
    ) by {
        let d = ctx.spec_layout_dirs()[i];
        if i > 0 {
            assert(r.is_prefix_of(d));
            assert(d.subrange(0, b.len() as int) =~= r.subrange(0, b.len() as int));
        }
    }
    assert(ctx.spec_layout_dirs()[2] == ctx.node_modules@);
}

/// Two projects with different layer names under the same base have
/// different layers, and neither layer lies inside the other: removing one
/// project's layer leaves every other project's layer in place.
pub proof fn lemma_layers_disjoint(a: RimContext, b: RimContext)
    requires
        a.wf(),
        b.wf(),
        a.rim_base@ == b.rim_base@,
        layer_name(a.project_root@) != layer_name(b.project_root@),
    ensures
        a.rim_dir@ != b.rim_dir@,
        !(a.rim_dir@ + seq!['/']).is_prefix_of(b.rim_dir@),
        !(b.rim_dir@ + seq!['/']).is_prefix_of(a.rim_dir@),
{
    let na = layer_name(a.project_root@);
    let nb = layer_name(b.project_root@);
    let base = a.rim_base@;
    assert(na[0] != '/') by {
        assert(na.contains(na[0]));
    }
    assert(nb[0] != '/') by {
        assert(nb.contains(nb[0]));
    }
    let p = if base.len() == 0 || base.last() == '/' {
        base
    } else {
        base + seq!['/']
    };
    assert(a.rim_dir@ =~= p + na);
    assert(b.rim_dir@ =~= p + nb);
    lemma_component_tails_disjoint(p, na, nb);
    lemma_component_tails_disjoint(p, nb, na);
}

proof fn lemma_component_tails_disjoint(p: Seq<char>, x: Seq<char>, y: Seq<char>)
    requires
        is_component(x),
        is_component(y),
        x != y,
    ensures
        p + x != p + y,
        !(p + x + seq!['/']).is_prefix_of(p + y),
{
    if p + x == p + y {
        assert(x =~= (p + x).subrange(p.len() as int, (p + x).len() as int));
        assert(y =~= (p + y).subrange(p.len() as int, (p + y).len() as int));
    }
    if (p + x + seq!['/']).is_prefix_of(p + y) {
        let k = (p.len() + x.len()) as int;
        let q = p + x + seq!['/'];
        assert(q[k] == '/');
        assert((p + y).subrange(0, q.len() as int)[k] == q[k]);
        assert((p + y)[k] == '/');
        assert(y[x.len() as int] == '/');
        assert(y.contains('/'));
    }
}

proof fn lemma_hex8_has_no_slash(h: u64)
    ensures
        !crate::hash::hex8(h).contains('/'),
{
    assert forall|x: u64| #[trigger] (x & 0xf) < 16 by {
        assert((x & 0xf) < 16) by (bit_vector);
    }
    let s = crate::hash::hex8(h);
    if s.contains('/') {
        let i = choose|i: int| 0 <= i < s.len() && s[i] == '/';
        let d = crate::hash::nibble(h, i);
        assert(d < 16);
    }
}

/// The layer of the project at `project_root` under the base `rim_base`.
pub fn build_context(project_root: &str, rim_base: &str) -> (ctx: RimContext)
    ensures
        ctx.wf(),
        ctx.project_root@ == project_root@,
        ctx.rim_base@ == rim_base@,
{
    let mut name = match path_file_name(project_root) {
        Some(n) => n,
        None => "project".to_owned(),
    };
    name.append("-");
    let hash = short_hash(project_root);
    name.append(hash.as_str());
    proof {
        reveal_strlit("-");
    }
    assert(name@ == layer_name(project_root@));
    proof {
        let hash_part = spec_short_hash(project_root@);
        lemma_hex8_has_no_slash(crate::hash::fnv1a(vstd::utf8::encode_utf8(project_root@)));
        let first = match spec_path_file_name(project_root@) {
            Some(n) => n,
            None => "project"@,
        };
        reveal_strlit("project");
        assert(!first.contains('/')) by {
            if first == "project"@ && first.contains('/') {
                let i = choose|i: int| 0 <= i < first.len() && first[i] == '/';
            }
        }
        let whole = first + "-"@ + hash_part;
        assert(!whole.contains('/')) by {
            if whole.contains('/') {
                let i = choose|i: int| 0 <= i < whole.len() && whole[i] == '/';
                if i < first.len() {
                    assert(first[i] == '/');
                } else if i == first.len() {
                    assert(whole[i] == '-');
                } else {
                    assert(hash_part[i - first.len() - 1] == '/');
                }
            }
        }
        assert(whole == layer_name(project_root@));
    }
    let rim_dir = join_path(rim_base, name.as_str());
    let shadow_project = join_path(rim_dir.as_str(), "project");
    RimContext {
        project_root: project_root.to_owned(),
        rim_base: rim_base.to_owned(),
        node_modules: join_path(shadow_project.as_str(), "node_modules"),
        npm_cache: join_path(rim_dir.as_str(), "npm-cache"),
        xdg_cache: join_path(rim_dir.as_str(), "xdg-cache"),
        tmp: join_path(rim_dir.as_str(), "tmp"),
        deno_dir: join_path(rim_dir.as_str(), "deno-cache"),
        playwright_browsers: join_path(rim_dir.as_str(), "playwright-browsers"),
        bun_cache: join_path(rim_dir.as_str(), "bun-cache"),
        pnpm_store: join_path(rim_dir.as_str(), "pnpm-store"),
        shadow_project,
        rim_dir,
    }
}

/// The cache a package manager's install fills, which is trimmed after
/// it: npm's cache, pnpm's store, bun's cache, and the XDG cache for yarn;
/// every other tool has none.
pub proof fn lemma_tool_cache_rules(ctx: RimContext, tool: Seq<char>)
    ensures
        tool == "npm"@ ==> ctx.spec_tool_cache(tool) == Some(ctx.npm_cache@),
        tool == "pnpm"@ ==> ctx.spec_tool_cache(tool) == Some(ctx.pnpm_store@),
        tool == "bun"@ ==> ctx.spec_tool_cache(tool) == Some(ctx.bun_cache@),
        tool == "yarn"@ ==> ctx.spec_tool_cache(tool) == Some(ctx.xdg_cache@),
        !(tool == "npm"@ || tool == "pnpm"@ || tool == "bun"@ || tool == "yarn"@)
            ==> ctx.spec_tool_cache(tool) is None,
        ctx.spec_tool_cache(tool) matches Some(d) ==> ctx.spec_cache_dirs().contains(d),
{
    reveal_strlit("npm");
    reveal_strlit("pnpm");
    reveal_strlit("bun");
    reveal_strlit("yarn");
    if tool == "npm"@ {
        assert(tool.len() == 3 && tool[0] == 'n' && tool[1] == 'p' && tool[2] == 'm');
    } else if tool == "pnpm"@ {
        assert(tool.len() == 4 && tool[0] == 'p' && tool[1] == 'n' && tool[2] == 'p' && tool[3] == 'm');
    } else if tool == "bun"@ {
        assert(tool.len() == 3 && tool[0] == 'b' && tool[1] == 'u' && tool[2] == 'n');
    } else if tool == "yarn"@ {
        assert(tool.len() == 4 && tool[0] == 'y' && tool[1] == 'a' && tool[2] == 'r' && tool[3] == 'n');
    }
    let c = ctx.spec_cache_dirs();
    assert(c[0] == ctx.npm_cache@);
    assert(c[1] == ctx.xdg_cache@);
    assert(c[5] == ctx.bun_cache@);
    assert(c[6] == ctx.pnpm_store@);
}

/// The environment of a command points every cache into the layer: npm's
/// cache, the XDG cache, the temporary directory, deno's, Playwright's
/// browsers and bun's cache, each under its variable.
pub proof fn lemma_cache_env_rules(ctx: RimContext)
    ensures
        ctx.spec_cache_env().contains(("npm_config_cache"@, ctx.npm_cache@)),
        ctx.spec_cache_env().contains(("XDG_CACHE_HOME"@, ctx.xdg_cache@)),
        ctx.spec_cache_env().contains(("TMPDIR"@, ctx.tmp@)),
        ctx.spec_cache_env().contains(("DENO_DIR"@, ctx.deno_dir@)),
        ctx.spec_cache_env().contains(("PLAYWRIGHT_BROWSERS_PATH"@, ctx.playwright_browsers@)),
        ctx.spec_cache_env().contains(("BUN_INSTALL_CACHE_DIR"@, ctx.bun_cache@)),
        ctx.spec_cache_env().len() == 6,
{
    let e = ctx.spec_cache_env();
    assert(e[0] == ("npm_config_cache"@, ctx.npm_cache@));
    assert(e[1] == ("XDG_CACHE_HOME"@, ctx.xdg_cache@));
    assert(e[2] == ("TMPDIR"@, ctx.tmp@));
    assert(e[3] == ("DENO_DIR"@, ctx.deno_dir@));
    assert(e[4] == ("PLAYWRIGHT_BROWSERS_PATH"@, ctx.playwright_browsers@));
    assert(e[5] == ("BUN_INSTALL_CACHE_DIR"@, ctx.bun_cache@));
}

/// `rim path` prints the layer by default, and its `node_modules`, its
/// shadow project or the base for `--node-modules`, `--shadow` and
/// `--base`; any other argument is refused.
pub proof fn lemma_path_choice_rules(a: Seq<char>)
    ensures
        spec_path_choice(None) == Ok::<PathChoice, Seq<char>>(PathChoice::RimDir),
        a == "--node-modules"@ ==> spec_path_choice(Some(a)) == Ok::<PathChoice, Seq<char>>(
            PathChoice::NodeModules,
        ),
        a == "--shadow"@ ==> spec_path_choice(Some(a)) == Ok::<PathChoice, Seq<char>>(
            PathChoice::Shadow,
        ),
        a == "--base"@ ==> spec_path_choice(Some(a)) == Ok::<PathChoice, Seq<char>>(
            PathChoice::Base,
        ),
        !(a == "--node-modules"@ || a == "--shadow"@ || a == "--base"@) ==> spec_path_choice(
            Some(a),
        ) is Err,
{
    reveal_strlit("--node-modules");
    reveal_strlit("--shadow");
    reveal_strlit("--base");
    if a == "--node-modules"@ {
        assert(a.len() == 14 && a[0] == '-' && a[1] == '-' && a[2] == 'n' && a[3] == 'o' && a[4] == 'd' && a[5] == 'e' && a[6] == '-' && a[7] == 'm' && a[8] == 'o' && a[9] == 'd' && a[10] == 'u' && a[11] == 'l' && a[12] == 'e' && a[13] == 's');
    } else if a == "--shadow"@ {
        assert(a.len() == 8 && a[0] == '-' && a[1] == '-' && a[2] == 's' && a[3] == 'h' && a[4] == 'a' && a[5] == 'd' && a[6] == 'o' && a[7] == 'w');
    } else if a == "--base"@ {
        assert(a.len() == 6 && a[0] == '-' && a[1] == '-' && a[2] == 'b' && a[3] == 'a' && a[4] == 's' && a[5] == 'e');
    }
}

/// A layer is named after its project: the project directory's name (or
/// `project` when the path has none), a hyphen, and the eight-digit short
/// hash of the project's path.
pub proof fn lemma_layer_name_rules(project_root: Seq<char>)
    ensures
        spec_path_file_name(project_root) matches Some(n) ==> layer_name(project_root) == n + "-"@
            + spec_short_hash(project_root),
        spec_path_file_name(project_root) is None ==> layer_name(project_root) == "project"@ + "-"@
            + spec_short_hash(project_root),
        spec_short_hash(project_root).is_suffix_of(layer_name(project_root)),
{
    let l = layer_name(project_root);
    let h = spec_short_hash(project_root);
    assert(l.subrange(l.len() - h.len(), l.len() as int) =~= h);
}

} // verus!
