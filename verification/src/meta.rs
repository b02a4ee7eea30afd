use vstd::prelude::*;
use crate::text::{chars_of, matches_at, occurs_at, string_of};

verus! {

/// How one character is written inside a JSON string of the layer's metadata
/// file: a quote, a backslash and the three whitespace controls get a
/// backslash escape; every other character stands for itself.
pub open spec fn escape_char(c: char) -> Seq<char> {
    if c == '"' {
        seq!['\\', '"']
    } else if c == '\\' {
        seq!['\\', '\\']
    } else if c == '\n' {
        seq!['\\', 'n']
    } else if c == '\r' {
        seq!['\\', 'r']
    } else if c == '\t' {
        seq!['\\', 't']
    } else {
        seq![c]
    }
}

/// The body of a JSON string holding `s`.
pub open spec fn json_escape(s: Seq<char>) -> Seq<char>
    decreases s.len(),
{
    if s.len() == 0 {
        seq![]
    } else {
        json_escape(s.drop_last()) + escape_char(s.last())
    }
}

/// The character that a backslash followed by `c` stands for, among the
/// escapes that the metadata file uses (and `\/`).
pub open spec fn unescape_char(c: char) -> Option<char> {
    if c == '"' {
        Some('"')
    } else if c == '\\' {
        Some('\\')
    } else if c == 'n' {
        Some('\n')
    } else if c == 'r' {
        Some('\r')
    } else if c == 't' {
        Some('\t')
    } else if c == '/' {
        Some('/')
    } else {
        None
    }
}

/// Reads the body of a JSON string from position `i` of `s`, after `acc`
/// has been read: the decoded text and the position just past the closing
/// quote, or `None` when the string is cut short or holds an unknown escape.
pub open spec fn decode_string(s: Seq<char>, i: int, acc: Seq<char>) -> Option<(Seq<char>, int)>
    decreases s.len() - i,
{
    if i < 0 || i >= s.len() {
        None
    } else if s[i] == '"' {
        Some((acc, i + 1))
    } else if s[i] == '\\' {
        if i + 1 >= s.len() {
            None
        } else {
            match unescape_char(s[i + 1]) {
                Some(c) => decode_string(s, i + 2, acc.push(c)),
                None => None,
            }
        }
    } else {
        decode_string(s, i + 1, acc.push(s[i]))
    }
}

/// The text before the project root in the metadata file.
pub open spec fn meta_head() -> Seq<char> {
    "{\n  \"project_root\": \""@
}

/// The text between the project root's closing quote and the manager.
pub open spec fn meta_middle() -> Seq<char> {
    ",\n  \"manager\": \""@
}

/// The text after the manager's closing quote.
pub open spec fn meta_tail() -> Seq<char> {
    "\n}\n"@
}

/// The metadata file of a layer: a JSON object naming the project that the
/// layer belongs to and the command that last used it.
pub open spec fn spec_render_meta(project_root: Seq<char>, manager: Seq<char>) -> Seq<char> {
    meta_head() + json_escape(project_root) + seq!['"'] + meta_middle() + json_escape(manager)
        + seq!['"'] + meta_tail()
}

/// The project root and manager that a metadata file written by
/// `render_meta` records; `None` for any other text.
pub open spec fn spec_parse_meta(s: Seq<char>) -> Option<(Seq<char>, Seq<char>)> {
    if !occurs_at(s, meta_head(), 0) {
        None
    } else {
        match decode_string(s, meta_head().len() as int, seq![]) {
            None => None,
            Some((root, j)) => if !occurs_at(s, meta_middle(), j) {
                None
            } else {
                match decode_string(s, j + meta_middle().len(), seq![]) {
                    None => None,
                    Some((manager, k)) => if occurs_at(s, meta_tail(), k) && k
                        + meta_tail().len() == s.len() {
                        Some((root, manager))
                    } else {
                        None
                    },
                }
            },
        }
    }
}

proof fn lemma_escape_first(s: Seq<char>)
    requires
        s.len() > 0,
    ensures
        json_escape(s) == escape_char(s[0]) + json_escape(s.drop_first()),
    decreases s.len(),
{
    if s.len() == 1 {
        assert(s.drop_last().len() == 0);
        assert(s.drop_first().len() == 0);
        assert(json_escape(s.drop_last()) == Seq::<char>::empty());
        assert(json_escape(s.drop_first()) == Seq::<char>::empty());
        assert(s.last() == s[0]);
        assert(json_escape(s) =~= escape_char(s[0]));
        assert(json_escape(s) =~= escape_char(s[0]) + json_escape(s.drop_first()));
    } else {
        lemma_escape_first(s.drop_last());
        assert(s.drop_last().drop_first() =~= s.drop_first().drop_last());
        assert(s.drop_first().last() == s.last());
        assert(json_escape(s.drop_first()) == json_escape(s.drop_first().drop_last())
            + escape_char(s.last()));
        assert(json_escape(s) =~= escape_char(s[0]) + json_escape(s.drop_first()));
    }
}

proof fn lemma_decode_escaped(pre: Seq<char>, x: Seq<char>, rest: Seq<char>, acc: Seq<char>)
    ensures
        decode_string(pre + json_escape(x) + seq!['"'] + rest, pre.len() as int, acc) == Some(
            (acc + x, (pre.len() + json_escape(x).len() + 1) as int),
        ),
    decreases x.len(),
{
    let s = pre + json_escape(x) + seq!['"'] + rest;
    let i = pre.len() as int;
    if x.len() == 0 {
        assert(json_escape(x).len() == 0);
        assert(s[i] == '"');
        assert(acc + x =~= acc);
    } else {
        lemma_escape_first(x);
        let c = x[0];
        let e = escape_char(c);
        let tail = x.drop_first();
        let pre2 = pre + e;
        assert(s =~= pre2 + json_escape(tail) + seq!['"'] + rest);
        lemma_decode_escaped(pre2, tail, rest, acc.push(c));
        assert(acc.push(c) + tail =~= acc + x);
        assert(s[i] == e[0]);
        if e.len() == 2 {
            assert(s[i + 1] == e[1]);
        }
    }
}

/// What `render_meta` writes, `parse_meta` reads back: the metadata file
/// of a layer gives the project root and manager that were recorded.
pub proof fn lemma_meta_roundtrip(project_root: Seq<char>, manager: Seq<char>)
    ensures
        spec_parse_meta(spec_render_meta(project_root, manager)) == Some((project_root, manager)),
{
    reveal_strlit("{\n  \"project_root\": \"");
    reveal_strlit(",\n  \"manager\": \"");
    reveal_strlit("\n}\n");
    let h = meta_head();
    let m = meta_middle();
    let t = meta_tail();
    let er = json_escape(project_root);
    let em = json_escape(manager);
    let s = spec_render_meta(project_root, manager);
    assert(s.subrange(0, h.len() as int) =~= h);
    let rest1 = m + em + seq!['"'] + t;
    assert(s =~= h + er + seq!['"'] + rest1);
    lemma_decode_escaped(h, project_root, rest1, seq![]);
    assert(seq![] + project_root =~= project_root);
    let j = h.len() + er.len() + 1;
    assert(s.subrange(j as int, (j + m.len()) as int) =~= m);
    let pre2 = h + er + seq!['"'] + m;
    assert(s =~= pre2 + em + seq!['"'] + t);
    lemma_decode_escaped(pre2, manager, t, seq![]);
    assert(seq![] + manager =~= manager);
    let k = pre2.len() + em.len() + 1;
    assert(s.subrange(k as int, (k + t.len()) as int) =~= t);
}

fn unescape(c: char) -> (r: Option<char>)
    ensures
        r == unescape_char(c),
{
    if c == '"' {
        Some('"')
    } else if c == '\\' {
        Some('\\')
    } else if c == 'n' {
        Some('\n')
    } else if c == 'r' {
        Some('\r')
    } else if c == 't' {
        Some('\t')
    } else if c == '/' {
        Some('/')
    } else {
        None
    }
}

/// Reads a JSON string body that starts at `start`.
fn decode_at(s: &Vec<char>, start: usize) -> (r: Option<(Vec<char>, usize)>)
    ensures
        match r {
            Some((v, k)) => decode_string(s@, start as int, seq![]) == Some((v@, k as int)),
            None => decode_string(s@, start as int, seq![]) is None,
        },
{
    let mut acc: Vec<char> = Vec::new();
    let mut i = start;
    loop
        invariant
            decode_string(s@, i as int, acc@) == decode_string(s@, start as int, seq![]),
        decreases s.len() - i,
    {
        if i >= s.len() {
            return None;
        }
        let c = s[i];
        if c == '"' {
            return Some((acc, i + 1));
        }
        if c == '\\' {
            if i + 1 >= s.len() {
                return None;
            }
            match unescape(s[i + 1]) {
                Some(u) => {
                    acc.push(u);
                    i = i + 2;
                },
                None => {
                    return None;
                },
            }
        } else {
            acc.push(c);
            i = i + 1;
        }
    }
}

fn escape_chars(x: &Vec<char>) -> (r: Vec<char>)
    ensures
        r@ == json_escape(x@),
{
    let mut r: Vec<char> = Vec::new();
    let mut i: usize = 0;
    while i < x.len()
        invariant
            i <= x.len(),
            r@ == json_escape(x@.subrange(0, i as int)),
        decreases x.len() - i,
    {
        let c = x[i];
        let ghost before = r@;
        if c == '"' {
            r.push('\\');
            r.push('"');
        } else if c == '\\' {
            r.push('\\');
            r.push('\\');
        } else if c == '\n' {
            r.push('\\');
            r.push('n');
        } else if c == '\r' {
            r.push('\\');
            r.push('r');
        } else if c == '\t' {
            r.push('\\');
            r.push('t');
        } else {
            r.push(c);
        }
        assert(r@ =~= before + escape_char(c));
        assert(x@.subrange(0, i + 1).drop_last() =~= x@.subrange(0, i as int));
        i = i + 1;
    }
    assert(x@.subrange(0, x.len() as int) =~= x@);
    r
}

/// The metadata file for the layer of the project at `project_root`, last
/// used by `manager`.
pub fn render_meta(project_root: &str, manager: &str) -> (r: String)
    ensures
        r@ == spec_render_meta(project_root@, manager@),
{
    let root = string_of(&escape_chars(&chars_of(project_root)));
    let mgr = string_of(&escape_chars(&chars_of(manager)));
    let mut r = "{\n  \"project_root\": \"".to_owned();
    r.append(root.as_str());
    r.append("\",\n  \"manager\": \"");
    r.append(mgr.as_str());
    r.append("\"\n}\n");
    proof {
        reveal_strlit("\",\n  \"manager\": \"");
        reveal_strlit("\"\n}\n");
        reveal_strlit(",\n  \"manager\": \"");
        reveal_strlit("\n}\n");
    }
    assert(r@ =~= spec_render_meta(project_root@, manager@));
    r
}

/// The project root and manager recorded in a layer's metadata file, or
/// `None` when the text is not such a file.
pub fn parse_meta(text: &str) -> (r: Option<(String, String)>)
    ensures
        match r {
            Some((root, manager)) => spec_parse_meta(text@) == Some((root@, manager@)),
            None => spec_parse_meta(text@) is None,
        },
{
    let s = chars_of(text);
    let head = chars_of("{\n  \"project_root\": \"");
    let middle = chars_of(",\n  \"manager\": \"");
    let tail = chars_of("\n}\n");
    if !matches_at(&s, &head, 0) {
        return None;
    }
    let (root, j) = match decode_at(&s, head.len()) {
        Some(p) => p,
        None => {
            return None;
        },
    };
    if !matches_at(&s, &middle, j) {
        return None;
    }
    let (manager, k) = match decode_at(&s, j + middle.len()) {
        Some(p) => p,
        None => {
            return None;
        },
    };
    if !matches_at(&s, &tail, k) || k + tail.len() != s.len() {
        return None;
    }
    Some((string_of(&root), string_of(&manager)))
}

/// What `rim gc` was asked to do.
#[derive(Clone, Copy, Debug, PartialEq, Eq, Structural)]
pub struct GcOptions {
    /// Report the layers that would go, remove nothing (`--dry-run`).
    pub dry_run: bool,
    /// Only remove layers whose recorded project is gone (`--orphaned`).
    pub orphaned_only: bool,
}

pub open spec fn gc_flags_from(o: GcOptions, args: Seq<Seq<char>>) -> Result<GcOptions, Seq<char>>
    decreases args.len(),
{
    if args.len() == 0 {
        Ok(o)
    } else {
        let a = args[0];
        if a == "--dry-run"@ {
            gc_flags_from(GcOptions { dry_run: true, ..o }, args.drop_first())
        } else if a == "--orphaned"@ {
            gc_flags_from(GcOptions { orphaned_only: true, ..o }, args.drop_first())
        } else {
            Err("unknown gc option: "@ + a)
        }
    }
}

/// The options of `rim gc` from the arguments after `gc`; the first
/// argument that is neither `--dry-run` nor `--orphaned` is refused.
pub open spec fn spec_parse_gc_args(args: Seq<Seq<char>>) -> Result<GcOptions, Seq<char>> {
    gc_flags_from(GcOptions { dry_run: false, orphaned_only: false }, args)
}

/// Reads the arguments of `rim gc`.
pub fn parse_gc_args(args: &Vec<String>) -> (r: Result<GcOptions, String>)
    ensures
        match r {
            Ok(o) => spec_parse_gc_args(crate::text::string_views(args@)) == Ok::<GcOptions, Seq<char>>(o),
            Err(e) => spec_parse_gc_args(crate::text::string_views(args@)) == Err::<GcOptions, Seq<char>>(e@),
        },
{
    let ghost all = crate::text::string_views(args@);
    let mut o = GcOptions { dry_run: false, orphaned_only: false };
    let mut i: usize = 0;
    assert(all.skip(0) =~= all);
    while i < args.len()
        invariant
            i <= args.len(),
            all == crate::text::string_views(args@),
            gc_flags_from(o, all.skip(i as int)) == spec_parse_gc_args(all),
        decreases args.len() - i,
    {
        let a = args[i].as_str();
        let ghost rest = all.skip(i as int);
        assert(rest[0] == a@);
        assert(rest.drop_first() =~= all.skip(i + 1));
        if crate::text::str_eq(a, "--dry-run") {
            o = GcOptions { dry_run: true, ..o };
        } else if crate::text::str_eq(a, "--orphaned") {
            o = GcOptions { orphaned_only: true, ..o };
        } else {
            let mut m = "unknown gc option: ".to_owned();
            m.append(a);
            return Err(m);
        }
        i = i + 1;
    }
    assert(all.skip(args.len() as int).len() == 0);
    Ok(o)
}

/// Whether `rim gc` removes a layer: one whose metadata names a project
/// that no longer exists always goes; one without readable metadata goes
/// unless only orphaned layers were asked for; the others stay.
pub open spec fn spec_gc_removes(
    meta: Option<(Seq<char>, Seq<char>)>,
    project_exists: bool,
    orphaned_only: bool,
) -> bool {
    match meta {
        Some(_) => !project_exists,
        None => !orphaned_only,
    }
}

/// Decides whether `rim gc` removes a layer, given what its metadata file
/// records (`None` when it has none that `parse_meta` reads) and whether
/// the recorded project still exists.
pub fn gc_removes(meta: &Option<(String, String)>, project_exists: bool, orphaned_only: bool) -> (r: bool)
    ensures
        r == spec_gc_removes(
            match meta {
                Some((a, b)) => Some((a@, b@)),
                None => None,
            },
            project_exists,
            orphaned_only,
        ),
{
    match meta {
        Some(_) => !project_exists,
        None => !orphaned_only,
    }
}

/// What `rim gc` does with one layer.
#[derive(Clone, Copy, Debug, PartialEq, Eq, Structural)]
pub enum GcAction {
    /// The layer stays.
    Keep,
    /// The layer would go, but this is a dry run: it is only reported.
    Report,
    /// The layer is removed.
    Remove,
}

pub open spec fn meta_view(meta: Option<(String, String)>) -> Option<(Seq<char>, Seq<char>)> {
    match meta {
        Some((a, b)) => Some((a@, b@)),
        None => None,
    }
}

/// What `rim gc` with `opts` does with a layer: one that goes is only
/// reported in a dry run and removed otherwise.
pub open spec fn spec_gc_action(
    meta: Option<(Seq<char>, Seq<char>)>,
    project_exists: bool,
    opts: GcOptions,
) -> GcAction {
    if !spec_gc_removes(meta, project_exists, opts.orphaned_only) {
        GcAction::Keep
    } else if opts.dry_run {
        GcAction::Report
    } else {
        GcAction::Remove
    }
}

/// One layer under the base, as `rim gc` sees it: its directory, what its
/// metadata file records (`None` when it has none that `parse_meta` reads)
/// and whether the recorded project still exists.
#[derive(Clone, Debug)]
pub struct GcLayer {
    pub dir: String,
    pub meta: Option<(String, String)>,
    pub project_exists: bool,
}

pub open spec fn layer_action(l: GcLayer, opts: GcOptions) -> GcAction {
    spec_gc_action(meta_view(l.meta), l.project_exists, opts)
}

/// The line that `rim gc` prints for a layer, if any.
pub open spec fn gc_line(a: GcAction, dir: Seq<char>) -> Seq<Seq<char>> {
    match a {
        GcAction::Keep => seq![],
        GcAction::Report => seq!["would remove "@ + dir],
        GcAction::Remove => seq!["removed "@ + dir],
    }
}

/// The directories that `rim gc` removes, in the order of `layers`.
pub open spec fn gc_removed(layers: Seq<GcLayer>, opts: GcOptions) -> Seq<Seq<char>>
    decreases layers.len(),
{
    if layers.len() == 0 {
        seq![]
    } else {
        gc_removed(layers.drop_last(), opts) + if layer_action(layers.last(), opts)
            == GcAction::Remove {
            seq![layers.last().dir@]
        } else {
            seq![]
        }
    }
}

/// The lines printed for the layers, in order.
pub open spec fn gc_lines(layers: Seq<GcLayer>, opts: GcOptions) -> Seq<Seq<char>>
    decreases layers.len(),
{
    if layers.len() == 0 {
        seq![]
    } else {
        gc_lines(layers.drop_last(), opts) + gc_line(
            layer_action(layers.last(), opts),
            layers.last().dir@,
        )
    }
}

/// What `rim gc` prints: a line per layer that goes, and, unless it is a dry
/// run, how many layers it removed.
pub open spec fn spec_gc_report(layers: Seq<GcLayer>, opts: GcOptions) -> Seq<Seq<char>> {
    gc_lines(layers, opts) + if opts.dry_run {
        seq![]
    } else {
        seq!["removed "@ + crate::text::decimal(gc_removed(layers, opts).len()) + " layer(s)"@]
    }
}

/// What `rim gc` does with the layers under the base.
#[derive(Clone, Debug)]
pub struct GcPlan {
    /// The layer directories to remove.
    pub remove: Vec<String>,
    /// The lines to print.
    pub lines: Vec<String>,
}

fn gc_action_of(layer: &GcLayer, opts: GcOptions) -> (r: GcAction)
    ensures
        r == layer_action(*layer, opts),
{
    let goes = gc_removes(&layer.meta, layer.project_exists, opts.orphaned_only);
    if !goes {
        GcAction::Keep
    } else if opts.dry_run {
        GcAction::Report
    } else {
        GcAction::Remove
    }
}

fn prefixed(prefix: &str, rest: &str) -> (r: String)
    ensures
        r@ == prefix@ + rest@,
{
    let mut r = prefix.to_owned();
    r.append(rest);
    r
}

/// Decides what `rim gc` with `opts` removes among `layers` and what it
/// prints.
pub fn gc_plan(layers: &Vec<GcLayer>, opts: GcOptions) -> (r: GcPlan)
    ensures
        crate::text::string_views(r.remove@) == gc_removed(layers@, opts),
        crate::text::string_views(r.lines@) == spec_gc_report(layers@, opts),
{
    let mut remove: Vec<String> = Vec::new();
    let mut lines: Vec<String> = Vec::new();
    let mut i: usize = 0;
    assert(layers@.take(0) =~= Seq::<GcLayer>::empty());
    while i < layers.len()
        invariant
            i <= layers.len(),
            crate::text::string_views(remove@) == gc_removed(layers@.take(i as int), opts),
            crate::text::string_views(lines@) == gc_lines(layers@.take(i as int), opts),
            remove@.len() <= i,
        decreases layers.len() - i,
    {
        let layer = &layers[i];
        let ghost t = layers@.take(i + 1);
        assert(t.drop_last() =~= layers@.take(i as int));
        assert(t.last() == *layer);
        let a = gc_action_of(layer, opts);
        let ghost r0 = crate::text::string_views(remove@);
        let ghost l0 = crate::text::string_views(lines@);
        match a {
            GcAction::Keep => {
                assert(r0 + seq![] =~= r0);
                assert(l0 + seq![] =~= l0);
            },
            GcAction::Report => {
                lines.push(prefixed("would remove ", layer.dir.as_str()));
                assert(crate::text::string_views(lines@) =~= l0 + gc_line(a, layer.dir@));
                assert(r0 + seq![] =~= r0);
            },
            GcAction::Remove => {
                remove.push(layer.dir.clone());
                lines.push(prefixed("removed ", layer.dir.as_str()));
                assert(crate::text::string_views(lines@) =~= l0 + gc_line(a, layer.dir@));
                assert(crate::text::string_views(remove@) =~= r0 + seq![layer.dir@]);
            },
        }
        i = i + 1;
    }
    assert(layers@.take(layers.len() as int) =~= layers@);
    if !opts.dry_run {
        let count = crate::text::string_of(&crate::text::u64_decimal(remove.len() as u64));
        let mut last = prefixed("removed ", count.as_str());
        last.append(" layer(s)");
        let ghost l0 = crate::text::string_views(lines@);
        lines.push(last);
        assert(crate::text::string_views(lines@) =~= l0 + seq![
            "removed "@ + crate::text::decimal(gc_removed(layers@, opts).len()) + " layer(s)"@,
        ]);
    } else {
        assert(crate::text::string_views(lines@) =~= crate::text::string_views(lines@) + seq![]);
    }
    GcPlan { remove, lines }
}

/// A dry run of `rim gc` removes nothing, and a layer whose recorded
/// project is gone always goes: it is removed, or in a dry run reported.
pub proof fn lemma_gc_laws(layers: Seq<GcLayer>, opts: GcOptions, root: Seq<char>, manager: Seq<char>)
    ensures
        opts.dry_run ==> gc_removed(layers, opts).len() == 0,
        spec_gc_action(Some((root, manager)), false, opts) == if opts.dry_run {
            GcAction::Report
        } else {
            GcAction::Remove
        },
    decreases layers.len(),
{
    if layers.len() > 0 {
        lemma_gc_laws(layers.drop_last(), opts, root, manager);
    }
}

/// The header of the `rim ls` listing.
pub fn ls_header() -> (r: &'static str)
    ensures
        r@ == "PROJECT\tMANAGER\tLAYER"@,
{
    "PROJECT\tMANAGER\tLAYER"
}

/// The `rim ls` row of the layer in `dir` whose metadata file holds
/// `meta_text` (`None` when it has none): the recorded project and manager
/// and the directory, or dashes when the metadata cannot be read.
pub open spec fn spec_ls_row(dir: Seq<char>, meta_text: Option<Seq<char>>) -> Seq<char> {
    let meta = match meta_text {
        Some(t) => spec_parse_meta(t),
        None => None,
    };
    match meta {
        Some((root, manager)) => root + "\t"@ + manager + "\t"@ + dir,
        None => "-\t-\t"@ + dir,
    }
}

/// The `rim ls` row of a layer.
pub fn ls_row(dir: &str, meta_text: Option<&str>) -> (r: String)
    ensures
        r@ == spec_ls_row(
            dir@,
            match meta_text {
                Some(t) => Some(t@),
                None => None,
            },
        ),
{
    let meta = match meta_text {
        Some(t) => parse_meta(t),
        None => None,
    };
    match meta {
        Some((root, manager)) => {
            let mut r = root;
            r.append("\t");
            r.append(manager.as_str());
            r.append("\t");
            r.append(dir);
            r
        },
        None => prefixed("-\t-\t", dir),
    }
}

/// `rim ls` reports a layer as the project and manager that were recorded
/// for it: the row of a layer whose metadata was written by `render_meta`
/// names that project and manager, and the layer's directory.
pub proof fn lemma_ls_reports_recorded_layer(dir: Seq<char>, project_root: Seq<char>, manager: Seq<char>)
    ensures
        spec_ls_row(dir, Some(spec_render_meta(project_root, manager))) == project_root + "\t"@
            + manager + "\t"@ + dir,
{
    lemma_meta_roundtrip(project_root, manager);
}

/// The options of `rim gc`: `--dry-run` and `--orphaned`, in any order and
/// each any number of times, set their option; any other argument is
/// refused; no arguments set nothing.
pub proof fn lemma_gc_args_rules(a: Seq<char>, rest: Seq<Seq<char>>)
    ensures
        spec_parse_gc_args(seq![]) == Ok::<GcOptions, Seq<char>>(
            GcOptions { dry_run: false, orphaned_only: false },
        ),
        a == "--dry-run"@ ==> (spec_parse_gc_args(seq![a] + rest) matches Ok(o) ==> o.dry_run),
        a == "--orphaned"@ ==> (spec_parse_gc_args(seq![a] + rest) matches Ok(o)
            ==> o.orphaned_only),
        !(a == "--dry-run"@ || a == "--orphaned"@) ==> spec_parse_gc_args(seq![a] + rest) is Err,
{
    reveal_strlit("--dry-run");
    reveal_strlit("--orphaned");
    if a == "--dry-run"@ {
        assert(a.len() == 9 && a[0] == '-' && a[1] == '-' && a[2] == 'd' && a[3] == 'r' && a[4] == 'y' && a[5] == '-' && a[6] == 'r' && a[7] == 'u' && a[8] == 'n');
    } else if a == "--orphaned"@ {
        assert(a.len() == 10 && a[0] == '-' && a[1] == '-' && a[2] == 'o' && a[3] == 'r' && a[4] == 'p' && a[5] == 'h' && a[6] == 'a' && a[7] == 'n' && a[8] == 'e' && a[9] == 'd');
    }
    let args = seq![a] + rest;
    assert(args[0] == a);
    assert(args.drop_first() =~= rest);
    lemma_gc_flags_keep(GcOptions { dry_run: true, orphaned_only: false }, rest);
    lemma_gc_flags_keep(GcOptions { dry_run: false, orphaned_only: true }, rest);
}

proof fn lemma_gc_flags_keep(o: GcOptions, args: Seq<Seq<char>>)
    ensures
        gc_flags_from(o, args) matches Ok(r) ==> (o.dry_run ==> r.dry_run) && (o.orphaned_only
            ==> r.orphaned_only),
    decreases args.len(),
{
    if args.len() > 0 {
        lemma_gc_flags_keep(GcOptions { dry_run: true, ..o }, args.drop_first());
        lemma_gc_flags_keep(GcOptions { orphaned_only: true, ..o }, args.drop_first());
    }
}

/// Whether `s` needs no escape inside a JSON string.
pub open spec fn is_plain(s: Seq<char>) -> bool {
    forall|i: int|
        0 <= i < s.len() ==> #[trigger] s[i] != '"' && s[i] != '\\' && s[i] != '\n' && s[i]
            != '\r' && s[i] != '\t'
}

proof fn lemma_plain_escape(s: Seq<char>)
    requires
        is_plain(s),
    ensures
        json_escape(s) == s,
    decreases s.len(),
{
    if s.len() > 0 {
        let d = s.drop_last();
        assert(is_plain(d)) by {
            assert forall|i: int| 0 <= i < d.len() implies #[trigger] d[i] != '"' && d[i] != '\\'
                && d[i] != '\n' && d[i] != '\r' && d[i] != '\t' by {
                assert(d[i] == s[i]);
            }
        }
        lemma_plain_escape(d);
        assert(s.last() == s[s.len() - 1]);
        assert(d + seq![s.last()] =~= s);
    }
}

/// The metadata file is a two-key JSON object: for a project root and a
/// manager that need no escapes it reads literally
/// `{"project_root": "<root>", "manager": "<manager>"}` over four lines;
/// quotes, backslashes, newlines, carriage returns and tabs are written
/// with a backslash escape.
pub proof fn lemma_meta_format(project_root: Seq<char>, manager: Seq<char>)
    ensures
        is_plain(project_root) && is_plain(manager) ==> spec_render_meta(project_root, manager)
            == "{\n  \"project_root\": \""@ + project_root + "\",\n  \"manager\": \""@ + manager
            + "\"\n}\n"@,
        escape_char('"') == seq!['\\', '"'],
        escape_char('\\') == seq!['\\', '\\'],
        escape_char('\n') == seq!['\\', 'n'],
        escape_char('\t') == seq!['\\', 't'],
        escape_char('a') == seq!['a'],
        escape_char('/') == seq!['/'],
{
    if is_plain(project_root) && is_plain(manager) {
        lemma_plain_escape(project_root);
        lemma_plain_escape(manager);
        reveal_strlit("{\n  \"project_root\": \"");
        reveal_strlit(",\n  \"manager\": \"");
        reveal_strlit("\n}\n");
        reveal_strlit("\",\n  \"manager\": \"");
        reveal_strlit("\"\n}\n");
        assert(spec_render_meta(project_root, manager) =~= "{\n  \"project_root\": \""@
            + project_root + "\",\n  \"manager\": \""@ + manager + "\"\n}\n"@);
    }
}

/// What `rim gc` keeps: a layer whose recorded project still exists always
/// stays; a layer without readable metadata stays when only orphaned
/// layers are asked for and goes otherwise.
pub proof fn lemma_gc_keeps(meta: (Seq<char>, Seq<char>), opts: GcOptions)
    ensures
        spec_gc_action(Some(meta), true, opts) == GcAction::Keep,
        opts.orphaned_only ==> spec_gc_action(None, false, opts) == GcAction::Keep
            && spec_gc_action(None, true, opts) == GcAction::Keep,
        !opts.orphaned_only && !opts.dry_run ==> spec_gc_action(None, false, opts)
            == GcAction::Remove,
{
}

} // verus!
