use vstd::prelude::*;
use crate::text::{str_eq, string_views};

verus! {

/// Flags given to `rim` before the command.
#[derive(Clone, Copy, Debug, PartialEq, Eq, Structural)]
pub struct CliOptions {
    pub dry_run: bool,
    pub auto_clean: bool,
    pub keep_on_error: bool,
    pub ephemeral: bool,
    /// Keep the package manager's cache after a successful install.
    pub keep_cache: bool,
}

/// The options when no flag is given.
pub open spec fn no_options() -> CliOptions {
    CliOptions {
        dry_run: false,
        auto_clean: false,
        keep_on_error: false,
        ephemeral: false,
        keep_cache: false,
    }
}

/// One of the flags that `rim` reads before its command.
pub open spec fn is_flag(a: Seq<char>) -> bool {
    a == "--dry-run"@ || a == "--auto-clean"@ || a == "--keep-on-error"@ || a == "--ephemeral"@
        || a == "--keep-cache"@
}

/// The options after the flag `a`; `--ephemeral` implies `--auto-clean`.
pub open spec fn with_flag(o: CliOptions, a: Seq<char>) -> CliOptions {
    if a == "--dry-run"@ {
        CliOptions { dry_run: true, ..o }
    } else if a == "--auto-clean"@ {
        CliOptions { auto_clean: true, ..o }
    } else if a == "--keep-on-error"@ {
        CliOptions { keep_on_error: true, ..o }
    } else if a == "--ephemeral"@ {
        CliOptions { ephemeral: true, auto_clean: true, ..o }
    } else if a == "--keep-cache"@ {
        CliOptions { keep_cache: true, ..o }
    } else {
        o
    }
}

/// How many of the arguments, from the first on, are flags.
pub open spec fn flag_count(args: Seq<Seq<char>>) -> nat
    decreases args.len(),
{
    if args.len() > 0 && is_flag(args[0]) {
        1 + flag_count(args.drop_first())
    } else {
        0
    }
}

/// The options that the leading flags of `args` set, on top of `o`.
pub open spec fn options_from(o: CliOptions, args: Seq<Seq<char>>) -> CliOptions
    decreases args.len(),
{
    if args.len() > 0 && is_flag(args[0]) {
        options_from(with_flag(o, args[0]), args.drop_first())
    } else {
        o
    }
}

pub open spec fn keep_on_error_message() -> Seq<char> {
    "--keep-on-error requires --auto-clean or --ephemeral"@
}

/// What the leading flags of `args` give: the options, or the error for
/// `--keep-on-error` without a cleanup flag.
pub open spec fn spec_parse_options(args: Seq<Seq<char>>) -> Result<CliOptions, Seq<char>> {
    let o = options_from(no_options(), args);
    if o.keep_on_error && !(o.auto_clean || o.ephemeral) {
        Err(keep_on_error_message())
    } else {
        Ok(o)
    }
}

impl CliOptions {
    /// Whether the layer is removed after a command that exited with `exit_code`.
    pub open spec fn spec_should_clean_after(self, exit_code: u8) -> bool {
        (self.auto_clean || self.ephemeral) && (!self.keep_on_error || exit_code == 0)
    }

    /// Cleanup happens after a command only with `--auto-clean` or `--ephemeral`,
    /// and with `--keep-on-error` only when the command succeeded.
    pub fn should_clean_after(self, exit_code: u8) -> (r: bool)
        ensures
            r == self.spec_should_clean_after(exit_code),
    {
        (self.auto_clean || self.ephemeral) && (!self.keep_on_error || exit_code == 0)
    }
}

proof fn lemma_options_from_keeps_ephemeral_auto_clean(o: CliOptions, args: Seq<Seq<char>>)
    requires
        o.ephemeral ==> o.auto_clean,
    ensures
        options_from(o, args).ephemeral ==> options_from(o, args).auto_clean,
    decreases args.len(),
{
    if args.len() > 0 && is_flag(args[0]) {
        lemma_options_from_keeps_ephemeral_auto_clean(with_flag(o, args[0]), args.drop_first());
    }
}

/// Options read from any arguments are consistent: `--ephemeral` always
/// brings `--auto-clean` with it, and `--keep-on-error` is only accepted
/// together with a cleanup flag.
pub proof fn lemma_parsed_options_consistent(args: Seq<Seq<char>>)
    ensures
        spec_parse_options(args) matches Ok(o) ==> (o.ephemeral ==> o.auto_clean) && (
        o.keep_on_error ==> o.auto_clean),
{
    lemma_options_from_keeps_ephemeral_auto_clean(no_options(), args);
}

proof fn lemma_options_step(o: CliOptions, args: Seq<Seq<char>>)
    requires
        args.len() > 0,
        is_flag(args[0]),
    ensures
        options_from(o, args) == options_from(with_flag(o, args[0]), args.drop_first()),
        flag_count(args) == 1 + flag_count(args.drop_first()),
{
}

/// Reads and removes the flags that stand before the command. The arguments
/// from the first one that is not a flag on are left as they are.
pub fn parse_options(args: &mut Vec<String>) -> (r: Result<CliOptions, String>)
    ensures
        string_views(final(args)@) == string_views(old(args)@).skip(
            flag_count(string_views(old(args)@)) as int,
        ),
        match r {
            Ok(o) => spec_parse_options(string_views(old(args)@)) == Ok::<CliOptions, Seq<char>>(o),
            Err(e) => spec_parse_options(string_views(old(args)@)) == Err::<CliOptions, Seq<char>>(e@),
        },
{
    let ghost all = string_views(args@);
    let mut options = CliOptions {
        dry_run: false,
        auto_clean: false,
        keep_on_error: false,
        ephemeral: false,
        keep_cache: false,
    };
    let ghost mut k: nat = 0;
    assert(all.skip(0) =~= all);
    loop
        invariant
            k <= all.len(),
            string_views(args@) == all.skip(k as int),
            options_from(options, all.skip(k as int)) == options_from(no_options(), all),
            k + flag_count(all.skip(k as int)) == flag_count(all),
        ensures
            string_views(args@) == all.skip(k as int),
            options == options_from(no_options(), all),
            k == flag_count(all),
        decreases all.len() - k,
    {
        if args.len() == 0 {
            break;
        }
        let ghost rest = all.skip(k as int);
        assert(rest[0] == args@[0]@);
        let flag = args[0].as_str();
        let ghost o0 = options;
        if str_eq(flag, "--dry-run") {
            options.dry_run = true;
        } else if str_eq(flag, "--auto-clean") {
            options.auto_clean = true;
        } else if str_eq(flag, "--keep-on-error") {
            options.keep_on_error = true;
        } else if str_eq(flag, "--ephemeral") {
            options.ephemeral = true;
            options.auto_clean = true;
        } else if str_eq(flag, "--keep-cache") {
            options.keep_cache = true;
        } else {
            break;
        }
        proof {
            lemma_options_step(o0, rest);
            assert(options == with_flag(o0, rest[0]));
        }
        args.remove(0);
        proof {
            assert(rest.drop_first() =~= all.skip(k + 1 as int));
            assert(string_views(args@) =~= rest.drop_first());
            k = k + 1;
        }
    }
    if options.keep_on_error && !(options.auto_clean || options.ephemeral) {
        return Err("--keep-on-error requires --auto-clean or --ephemeral".to_owned());
    }
    Ok(options)
}

/// What `rim` does after a command that exited with `exit_code`: with
/// neither `--auto-clean` nor `--ephemeral` the layer always stays; with one
/// of them it goes after a success, and after a failure too unless
/// `--keep-on-error` is given, which keeps it after every failure.
pub proof fn lemma_clean_after_rules(o: CliOptions, exit_code: u8)
    ensures
        o.keep_on_error && exit_code != 0 ==> !o.spec_should_clean_after(exit_code),
        !o.auto_clean && !o.ephemeral ==> !o.spec_should_clean_after(exit_code),
        (o.auto_clean || o.ephemeral) && exit_code == 0 ==> o.spec_should_clean_after(exit_code),
        (o.auto_clean || o.ephemeral) && !o.keep_on_error ==> o.spec_should_clean_after(
            exit_code,
        ),
{
}

proof fn lemma_options_from_keeps_set(o: CliOptions, args: Seq<Seq<char>>)
    ensures
        o.dry_run ==> options_from(o, args).dry_run,
        o.auto_clean ==> options_from(o, args).auto_clean,
        o.keep_on_error ==> options_from(o, args).keep_on_error,
        o.ephemeral ==> options_from(o, args).ephemeral,
        o.keep_cache ==> options_from(o, args).keep_cache,
    decreases args.len(),
{
    if args.len() > 0 && is_flag(args[0]) {
        lemma_options_from_keeps_set(with_flag(o, args[0]), args.drop_first());
    }
}

/// Each flag before the command sets its option, whatever follows it:
/// `--dry-run`, `--auto-clean`, `--keep-on-error`, `--keep-cache`, and
/// `--ephemeral`, which brings `--auto-clean` with it. A first argument that
/// is no flag sets nothing and is left to be the command.
pub proof fn lemma_leading_flag_sets_option(a: Seq<char>, rest: Seq<Seq<char>>)
    ensures
        ({
            let o = options_from(no_options(), seq![a] + rest);
            &&& a == "--dry-run"@ ==> o.dry_run
            &&& a == "--auto-clean"@ ==> o.auto_clean
            &&& a == "--keep-on-error"@ ==> o.keep_on_error
            &&& a == "--ephemeral"@ ==> o.ephemeral && o.auto_clean
            &&& a == "--keep-cache"@ ==> o.keep_cache
        }),
        !(a == "--dry-run"@ || a == "--auto-clean"@ || a == "--keep-on-error"@ || a
            == "--ephemeral"@ || a == "--keep-cache"@) ==> spec_parse_options(seq![a] + rest)
            == Ok::<CliOptions, Seq<char>>(no_options()),
{
    reveal_strlit("--dry-run");
    reveal_strlit("--auto-clean");
    reveal_strlit("--keep-on-error");
    reveal_strlit("--ephemeral");
    reveal_strlit("--keep-cache");
    if a == "--dry-run"@ {
        assert(a.len() == 9 && a[0] == '-' && a[1] == '-' && a[2] == 'd' && a[3] == 'r' && a[4] == 'y' && a[5] == '-' && a[6] == 'r' && a[7] == 'u' && a[8] == 'n');
    } else if a == "--auto-clean"@ {
        assert(a.len() == 12 && a[0] == '-' && a[1] == '-' && a[2] == 'a' && a[3] == 'u' && a[4] == 't' && a[5] == 'o' && a[6] == '-' && a[7] == 'c' && a[8] == 'l' && a[9] == 'e' && a[10] == 'a' && a[11] == 'n');
    } else if a == "--keep-on-error"@ {
        assert(a.len() == 15 && a[0] == '-' && a[1] == '-' && a[2] == 'k' && a[3] == 'e' && a[4] == 'e' && a[5] == 'p' && a[6] == '-' && a[7] == 'o' && a[8] == 'n' && a[9] == '-' && a[10] == 'e' && a[11] == 'r' && a[12] == 'r' && a[13] == 'o' && a[14] == 'r');
    } else if a == "--ephemeral"@ {
        assert(a.len() == 11 && a[0] == '-' && a[1] == '-' && a[2] == 'e' && a[3] == 'p' && a[4] == 'h' && a[5] == 'e' && a[6] == 'm' && a[7] == 'e' && a[8] == 'r' && a[9] == 'a' && a[10] == 'l');
    } else if a == "--keep-cache"@ {
        assert(a.len() == 12 && a[0] == '-' && a[1] == '-' && a[2] == 'k' && a[3] == 'e' && a[4] == 'e' && a[5] == 'p' && a[6] == '-' && a[7] == 'c' && a[8] == 'a' && a[9] == 'c' && a[10] == 'h' && a[11] == 'e');
    }
    let args = seq![a] + rest;
    assert(args[0] == a);
    assert(args.drop_first() =~= rest);
    lemma_options_from_keeps_set(with_flag(no_options(), a), rest);
}

/// Reading the flags fails only for `--keep-on-error` without a cleanup
/// flag, with the message that says so; every other combination of flags
/// is accepted as read.
pub proof fn lemma_parse_options_errors(args: Seq<Seq<char>>)
    ensures
        ({
            let o = options_from(no_options(), args);
            &&& (spec_parse_options(args) is Err <==> o.keep_on_error && !o.auto_clean
                && !o.ephemeral)
            &&& (spec_parse_options(args) matches Err(e) ==> e
                == "--keep-on-error requires --auto-clean or --ephemeral"@)
            &&& (!o.keep_on_error ==> spec_parse_options(args) == Ok::<CliOptions, Seq<char>>(o))
        }),
{
}

} // verus!
