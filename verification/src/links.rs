use vstd::prelude::*;
use crate::paths::{same_path, spec_same_path};

verus! {

/// What was found at the real project's `node_modules` entry.
#[derive(Clone, Debug)]
pub enum LinkState {
    /// Nothing is there.
    Missing,
    /// A symbolic link, with its target.
    Symlink(String),
    /// A symbolic link whose target could not be read, with the error's text.
    UnreadableSymlink(String),
    /// A real directory or file.
    NotSymlink,
    /// The entry could not be inspected, with the error's text.
    Uninspectable(String),
}

/// What to do so that `node_modules` links into the layer.
#[derive(Clone, Copy, Debug, PartialEq, Eq, Structural)]
pub enum LinkAction {
    /// The link already points into the layer.
    Keep,
    /// The link points elsewhere: remove it and link into the layer.
    Replace,
    /// There is no entry: create the link.
    Create,
}

/// What `rim clean` removes.
#[derive(Clone, Copy, Debug, PartialEq, Eq, Structural)]
pub enum CleanMode {
    /// The whole layer and the project's link.
    All,
    /// Only the caches; dependencies and link stay.
    CacheOnly,
    /// Only the dependencies and the project's link; caches and metadata stay.
    DepsOnly,
}

/// What cleaning removes.
#[derive(Clone, Copy, Debug, PartialEq, Eq, Structural)]
pub struct CleanPlan {
    /// Remove the project's `node_modules` link.
    pub remove_link: bool,
    /// Remove the layer directory.
    pub remove_rim_dir: bool,
    /// Remove the layer's `node_modules` directory.
    pub remove_dependencies: bool,
    /// Remove the layer's cache directories.
    pub remove_caches: bool,
}

pub open spec fn spec_clean_mode(arg: Option<Seq<char>>) -> Result<CleanMode, Seq<char>> {
    match arg {
        None => Ok(CleanMode::All),
        Some(a) => if a == "--cache-only"@ {
            Ok(CleanMode::CacheOnly)
        } else if a == "--deps-only"@ {
            Ok(CleanMode::DepsOnly)
        } else {
            Err("unknown clean option: "@ + a)
        },
    }
}

/// The mode that `rim clean`'s optional argument asks for.
pub fn clean_mode(arg: Option<&str>) -> (r: Result<CleanMode, String>)
    ensures
        match r {
            Ok(m) => spec_clean_mode(crate::config::opt_view(arg)) == Ok::<CleanMode, Seq<char>>(m),
            Err(e) => spec_clean_mode(crate::config::opt_view(arg)) == Err::<CleanMode, Seq<char>>(e@),
        },
{
    match arg {
        None => Ok(CleanMode::All),
        Some(a) => {
            if crate::text::str_eq(a, "--cache-only") {
                Ok(CleanMode::CacheOnly)
            } else if crate::text::str_eq(a, "--deps-only") {
                Ok(CleanMode::DepsOnly)
            } else {
                let mut m = "unknown clean option: ".to_owned();
                m.append(a);
                Err(m)
            }
        },
    }
}

pub open spec fn not_a_symlink_message() -> Seq<char> {
    "node_modules exists and is not a symlink. Try: move or delete node_modules, or run rim from another project"@
}

/// What preparing the layer does with the project's `node_modules` entry.
pub open spec fn spec_link_action(state: LinkState, node_modules: Seq<char>) -> Result<
    LinkAction,
    Seq<char>,
> {
    match state {
        LinkState::Missing => Ok(LinkAction::Create),
        LinkState::Symlink(t) => if spec_same_path(t@, node_modules) {
            Ok(LinkAction::Keep)
        } else {
            Ok(LinkAction::Replace)
        },
        LinkState::UnreadableSymlink(e) => Err("cannot read node_modules symlink: "@ + e@),
        LinkState::NotSymlink => Err(not_a_symlink_message()),
        LinkState::Uninspectable(e) => Err("cannot inspect node_modules: "@ + e@),
    }
}

fn message(prefix: &str, detail: &String) -> (r: String)
    ensures
        r@ == prefix@ + detail@,
{
    let mut r = prefix.to_owned();
    r.append(detail.as_str());
    r
}

/// Decides how to make the project's `node_modules` link into the layer at
/// `node_modules`. A real directory or file is never replaced.
pub fn node_modules_link_action(state: &LinkState, node_modules: &str) -> (r: Result<
    LinkAction,
    String,
>)
    ensures
        match r {
            Ok(a) => spec_link_action(*state, node_modules@) == Ok::<LinkAction, Seq<char>>(a),
            Err(e) => spec_link_action(*state, node_modules@) == Err::<LinkAction, Seq<char>>(e@),
        },
{
    match state {
        LinkState::Missing => Ok(LinkAction::Create),
        LinkState::Symlink(t) => {
            if same_path(t.as_str(), node_modules) {
                Ok(LinkAction::Keep)
            } else {
                Ok(LinkAction::Replace)
            }
        },
        LinkState::UnreadableSymlink(e) => Err(message("cannot read node_modules symlink: ", e)),
        LinkState::NotSymlink => Err(
            "node_modules exists and is not a symlink. Try: move or delete node_modules, or run rim from another project".to_owned(),
        ),
        LinkState::Uninspectable(e) => Err(message("cannot inspect node_modules: ", e)),
    }
}

/// What cleaning in `mode` removes: the project's link only when it points
/// into this layer (and not for a cache-only clean), the layer directory when
/// it exists (for a full clean), the dependencies (for a deps-only clean) and
/// the caches (for a cache-only clean).
pub open spec fn spec_clean_plan(
    state: LinkState,
    node_modules: Seq<char>,
    rim_dir_exists: bool,
    mode: CleanMode,
) -> Result<CleanPlan, Seq<char>> {
    let own_link = match state {
        LinkState::Symlink(t) => spec_same_path(t@, node_modules),
        _ => false,
    };
    match state {
        LinkState::UnreadableSymlink(e) => if mode == CleanMode::CacheOnly {
            Ok(
                CleanPlan {
                    remove_link: false,
                    remove_rim_dir: false,
                    remove_dependencies: false,
                    remove_caches: true,
                },
            )
        } else {
            Err("cannot read node_modules link: "@ + e@)
        },
        _ => Ok(
            CleanPlan {
                remove_link: own_link && mode != CleanMode::CacheOnly,
                remove_rim_dir: rim_dir_exists && mode == CleanMode::All,
                remove_dependencies: mode == CleanMode::DepsOnly,
                remove_caches: mode == CleanMode::CacheOnly,
            },
        ),
    }
}

/// Decides what cleaning in `mode` removes, given the project's
/// `node_modules` entry, the layer's `node_modules` and whether the layer
/// directory exists.
pub fn clean_plan(state: &LinkState, node_modules: &str, rim_dir_exists: bool, mode: CleanMode) -> (r:
    Result<CleanPlan, String>)
    ensures
        match r {
            Ok(p) => spec_clean_plan(*state, node_modules@, rim_dir_exists, mode) == Ok::<
                CleanPlan,
                Seq<char>,
            >(p),
            Err(e) => spec_clean_plan(*state, node_modules@, rim_dir_exists, mode) == Err::<
                CleanPlan,
                Seq<char>,
            >(e@),
        },
{
    let cache_only = match mode {
        CleanMode::CacheOnly => true,
        _ => false,
    };
    let all = match mode {
        CleanMode::All => true,
        _ => false,
    };
    let deps_only = match mode {
        CleanMode::DepsOnly => true,
        _ => false,
    };
    match state {
        LinkState::UnreadableSymlink(e) => {
            if cache_only {
                Ok(
                    CleanPlan {
                        remove_link: false,
                        remove_rim_dir: false,
                        remove_dependencies: false,
                        remove_caches: true,
                    },
                )
            } else {
                Err(message("cannot read node_modules link: ", e))
            }
        },
        _ => {
            let own_link = match state {
                LinkState::Symlink(t) => same_path(t.as_str(), node_modules),
                _ => false,
            };
            Ok(
                CleanPlan {
                    remove_link: own_link && !cache_only,
                    remove_rim_dir: rim_dir_exists && all,
                    remove_dependencies: deps_only,
                    remove_caches: cache_only,
                },
            )
        },
    }
}

/// Preparing a layer never replaces a real `node_modules` directory or file:
/// it stops with an error that says so.
pub proof fn lemma_real_node_modules_never_replaced(node_modules: Seq<char>)
    ensures
        spec_link_action(LinkState::NotSymlink, node_modules) == Err::<LinkAction, Seq<char>>(
            not_a_symlink_message(),
        ),
{
}

/// Preparing again is idempotent for the link: a link that already points
/// at the layer's `node_modules`, written as that path or with a trailing
/// `/`, is kept as it is.
pub proof fn lemma_link_into_layer_is_kept(target: String, node_modules: Seq<char>)
    requires
        target@ == node_modules || (node_modules.len() > 0 && target@ == node_modules + seq!['/']),
    ensures
        spec_link_action(LinkState::Symlink(target), node_modules) == Ok::<LinkAction, Seq<char>>(
            LinkAction::Keep,
        ),
{
    if target@ != node_modules {
        crate::paths::lemma_trailing_slash_same_path(node_modules);
    }
}

/// Cleaning removes the project's `node_modules` only when it is a symbolic
/// link to this layer's `node_modules`; a real directory, a missing entry or
/// a link elsewhere is left alone. A cache-only clean keeps the layer, its
/// dependencies and the link; a deps-only clean keeps the layer and its
/// caches.
pub proof fn lemma_clean_removes_only_own_link(
    state: LinkState,
    node_modules: Seq<char>,
    rim_dir_exists: bool,
    mode: CleanMode,
)
    ensures
        spec_clean_plan(state, node_modules, rim_dir_exists, mode) matches Ok(p) && p.remove_link
            ==> (state matches LinkState::Symlink(t) && spec_same_path(t@, node_modules)),
        spec_clean_plan(state, node_modules, rim_dir_exists, mode) matches Ok(p) ==> (mode
            == CleanMode::CacheOnly ==> !p.remove_link && !p.remove_rim_dir
            && !p.remove_dependencies),
        spec_clean_plan(state, node_modules, rim_dir_exists, mode) matches Ok(p) ==> (mode
            == CleanMode::DepsOnly ==> !p.remove_rim_dir && !p.remove_caches),
{
}

/// What each kind of clean removes. A full or deps-only clean removes the
/// project's `node_modules` link whenever it points at this layer's
/// `node_modules`, also when the layer itself is already gone (a dead
/// link); a cache-only clean never touches the link. Only a full clean
/// removes the layer directory, and it does whenever that exists; only a
/// deps-only clean removes the dependencies, and only a cache-only clean the
/// caches. Every clean succeeds unless the link cannot be read, and a
/// cache-only clean succeeds even then.
pub proof fn lemma_clean_plan_rules(
    state: LinkState,
    node_modules: Seq<char>,
    rim_dir_exists: bool,
    mode: CleanMode,
)
    ensures
        (state matches LinkState::Symlink(t) && (t@ == node_modules || spec_same_path(
            t@,
            node_modules,
        ))) && mode != CleanMode::CacheOnly ==> (spec_clean_plan(
            state,
            node_modules,
            rim_dir_exists,
            mode,
        ) matches Ok(p) && p.remove_link),
        !(state is UnreadableSymlink) || mode == CleanMode::CacheOnly ==> spec_clean_plan(
            state,
            node_modules,
            rim_dir_exists,
            mode,
        ) is Ok,
        state is UnreadableSymlink && mode != CleanMode::CacheOnly ==> spec_clean_plan(
            state,
            node_modules,
            rim_dir_exists,
            mode,
        ) is Err,
        spec_clean_plan(state, node_modules, rim_dir_exists, mode) matches Ok(p) ==> (
        p.remove_rim_dir == (rim_dir_exists && mode == CleanMode::All) && p.remove_dependencies
            == (mode == CleanMode::DepsOnly) && p.remove_caches == (mode
            == CleanMode::CacheOnly)),
{
}

/// How preparing treats the project's `node_modules` entry: a missing one is
/// created, a link to this layer's `node_modules` is kept, a link anywhere
/// else is replaced, and anything that is not a link is refused with an
/// error.
pub proof fn lemma_link_action_rules(state: LinkState, node_modules: Seq<char>)
    ensures
        state is Missing ==> spec_link_action(state, node_modules) == Ok::<LinkAction, Seq<char>>(
            LinkAction::Create,
        ),
        state matches LinkState::Symlink(t) ==> spec_link_action(state, node_modules) == if t@
            == node_modules || spec_same_path(t@, node_modules) {
            Ok::<LinkAction, Seq<char>>(LinkAction::Keep)
        } else {
            Ok::<LinkAction, Seq<char>>(LinkAction::Replace)
        },
        state is NotSymlink || state is Uninspectable || state is UnreadableSymlink
            ==> spec_link_action(state, node_modules) is Err,
{
}

/// `rim clean` cleans everything by default, only the caches with
/// `--cache-only` and only the dependencies with `--deps-only`; any other
/// argument is refused.
pub proof fn lemma_clean_mode_rules(a: Seq<char>)
    ensures
        spec_clean_mode(None) == Ok::<CleanMode, Seq<char>>(CleanMode::All),
        a == "--cache-only"@ ==> spec_clean_mode(Some(a)) == Ok::<CleanMode, Seq<char>>(
            CleanMode::CacheOnly,
        ),
        a == "--deps-only"@ ==> spec_clean_mode(Some(a)) == Ok::<CleanMode, Seq<char>>(
            CleanMode::DepsOnly,
        ),
        !(a == "--cache-only"@ || a == "--deps-only"@) ==> spec_clean_mode(Some(a)) is Err,
{
    reveal_strlit("--cache-only");
    reveal_strlit("--deps-only");
    if a == "--cache-only"@ {
        assert(a.len() == 12 && a[0] == '-' && a[1] == '-' && a[2] == 'c' && a[3] == 'a' && a[4] == 'c' && a[5] == 'h' && a[6] == 'e' && a[7] == '-' && a[8] == 'o' && a[9] == 'n' && a[10] == 'l' && a[11] == 'y');
    } else if a == "--deps-only"@ {
        assert(a.len() == 11 && a[0] == '-' && a[1] == '-' && a[2] == 'd' && a[3] == 'e' && a[4] == 'p' && a[5] == 's' && a[6] == '-' && a[7] == 'o' && a[8] == 'n' && a[9] == 'l' && a[10] == 'y');
    }
}

/// The refusal to replace a real `node_modules` tells the user so and what
/// to try.
pub proof fn lemma_not_a_symlink_wording()
    ensures
        crate::text::contains(
            not_a_symlink_message(),
            "node_modules exists and is not a symlink. Try:"@,
        ),
{
    let w = not_a_symlink_message();
    let n = "node_modules exists and is not a symlink. Try:"@;
    reveal_strlit("node_modules exists and is not a symlink. Try: move or delete node_modules, or run rim from another project");
    reveal_strlit("node_modules exists and is not a symlink. Try:");
    assert(w.subrange(0, n.len() as int) =~= n);
    assert(crate::text::occurs_at(w, n, 0));
}

} // verus!
