use vstd::prelude::*;
use crate::paths::{join_path, path_join};
use crate::text::str_eq;

verus! {

/// Where layers live when nothing else is said: a tmpfs in RAM.
pub open spec fn default_base() -> Seq<char> {
    "/dev/shm/rim"@
}

pub open spec fn spec_cache_dir(xdg_cache_home: Option<Seq<char>>, home: Option<Seq<char>>) -> Seq<
    char,
> {
    match xdg_cache_home {
        Some(x) => x,
        None => match home {
            Some(h) => path_join(h, ".cache"@),
            None => ".cache"@,
        },
    }
}

/// The user's cache directory: `XDG_CACHE_HOME`, else `$HOME/.cache`, else
/// `.cache`.
pub fn cache_dir(xdg_cache_home: Option<&str>, home: Option<&str>) -> (r: String)
    ensures
        r@ == spec_cache_dir(
            match xdg_cache_home {
                Some(x) => Some(x@),
                None => None,
            },
            match home {
                Some(h) => Some(h@),
                None => None,
            },
        ),
{
    match xdg_cache_home {
        Some(x) => x.to_owned(),
        None => match home {
            Some(h) => join_path(h, ".cache"),
            None => ".cache".to_owned(),
        },
    }
}

pub open spec fn external_base_message() -> Seq<char> {
    "RIM_PROFILE=external requires RIM_EXTERNAL_BASE"@
}

pub open spec fn unknown_profile_message(profile: Seq<char>) -> Seq<char> {
    "unknown RIM_PROFILE="@ + profile + "; expected ram, cache, or external"@
}

/// The base directory that a storage profile names on Unix.
pub open spec fn spec_default_rim_base(
    profile: Option<Seq<char>>,
    cache_dir: Seq<char>,
    external_base: Option<Seq<char>>,
) -> Result<Seq<char>, Seq<char>> {
    match profile {
        None => Ok(default_base()),
        Some(p) => if p == ""@ || p == "ram"@ {
            Ok(default_base())
        } else if p == "cache"@ {
            Ok(path_join(cache_dir, "rim"@))
        } else if p == "external"@ {
            match external_base {
                Some(b) => Ok(b),
                None => Err(external_base_message()),
            }
        } else {
            Err(unknown_profile_message(p))
        },
    }
}

/// The base directory for the storage profile `RIM_PROFILE` (`ram`, the
/// default, `cache` or `external`), given the user's cache directory and
/// `RIM_EXTERNAL_BASE`. An unknown profile, or `external` without a base, is
/// an error.
pub fn default_rim_base(profile: Option<&str>, cache_dir: &str, external_base: Option<&str>) -> (r:
    Result<String, String>)
    ensures
        match r {
            Ok(b) => spec_default_rim_base(
                match profile {
                    Some(p) => Some(p@),
                    None => None,
                },
                cache_dir@,
                match external_base {
                    Some(b) => Some(b@),
                    None => None,
                },
            ) == Ok::<Seq<char>, Seq<char>>(b@),
            Err(e) => spec_default_rim_base(
                match profile {
                    Some(p) => Some(p@),
                    None => None,
                },
                cache_dir@,
                match external_base {
                    Some(b) => Some(b@),
                    None => None,
                },
            ) == Err::<Seq<char>, Seq<char>>(e@),
        },
{
    match profile {
        None => Ok("/dev/shm/rim".to_owned()),
        Some(p) => {
            if str_eq(p, "") || str_eq(p, "ram") {
                Ok("/dev/shm/rim".to_owned())
            } else if str_eq(p, "cache") {
                Ok(join_path(cache_dir, "rim"))
            } else if str_eq(p, "external") {
                match external_base {
                    Some(b) => Ok(b.to_owned()),
                    None => Err("RIM_PROFILE=external requires RIM_EXTERNAL_BASE".to_owned()),
                }
            } else {
                let mut m = "unknown RIM_PROFILE=".to_owned();
                m.append(p);
                m.append("; expected ram, cache, or external");
                Err(m)
            }
        },
    }
}

/// The base of all layers: `RIM_BASE` when it is set, else the base that
/// the storage profile `RIM_PROFILE` names.
pub open spec fn spec_select_rim_base(
    rim_base: Option<Seq<char>>,
    profile: Option<Seq<char>>,
    cache_dir: Seq<char>,
    external_base: Option<Seq<char>>,
) -> Result<Seq<char>, Seq<char>> {
    match rim_base {
        Some(b) => Ok(b),
        None => spec_default_rim_base(profile, cache_dir, external_base),
    }
}

pub open spec fn opt_view(o: Option<&str>) -> Option<Seq<char>> {
    match o {
        Some(s) => Some(s@),
        None => None,
    }
}

/// Chooses the base of all layers from `RIM_BASE`, `RIM_PROFILE`, the user's
/// cache directory and `RIM_EXTERNAL_BASE`.
pub fn select_rim_base(
    rim_base: Option<&str>,
    profile: Option<&str>,
    cache_dir: &str,
    external_base: Option<&str>,
) -> (r: Result<String, String>)
    ensures
        match r {
            Ok(b) => spec_select_rim_base(
                opt_view(rim_base),
                opt_view(profile),
                cache_dir@,
                opt_view(external_base),
            ) == Ok::<Seq<char>, Seq<char>>(b@),
            Err(e) => spec_select_rim_base(
                opt_view(rim_base),
                opt_view(profile),
                cache_dir@,
                opt_view(external_base),
            ) == Err::<Seq<char>, Seq<char>>(e@),
        },
{
    match rim_base {
        Some(b) => Ok(b.to_owned()),
        None => default_rim_base(profile, cache_dir, external_base),
    }
}

pub open spec fn windows_external_message() -> Seq<char> {
    "RIM_PROFILE=external requires RIM_EXTERNAL_BASE; rim will not guess a drive like D:\\rim"@
}

pub open spec fn windows_ram_message() -> Seq<char> {
    "RIM_PROFILE=ram is not available on native Windows. Use WSL for /dev/shm tmpfs behavior, or set RIM_BASE to a RAM disk manually."@
}

pub open spec fn local_app_data_message() -> Seq<char> {
    "LOCALAPPDATA is not set; set RIM_BASE explicitly"@
}

/// Whether `dir` is a bare drive such as `C:`: an ASCII letter and a colon.
pub open spec fn is_bare_drive(dir: Seq<char>) -> bool {
    dir.len() == 2 && dir[1] == ':' && (('a' <= dir[0] && dir[0] <= 'z') || ('A' <= dir[0]
        && dir[0] <= 'Z'))
}

/// `dir` with the name `rim` pushed onto it as a Windows `PathBuf` does:
/// after a backslash, unless the directory is empty, already ends with a
/// separator, or is a bare drive (`C:` gives `C:rim`).
pub open spec fn windows_rim_under(dir: Seq<char>) -> Seq<char> {
    if dir.len() == 0 || dir.last() == '\\' || dir.last() == '/' || is_bare_drive(dir) {
        dir + "rim"@
    } else {
        dir + seq!['\\'] + "rim"@
    }
}

fn windows_rim_dir(dir: &str) -> (r: String)
    ensures
        r@ == windows_rim_under(dir@),
{
    let d = crate::text::chars_of(dir);
    let mut r = dir.to_owned();
    let n = d.len();
    let bare_drive = n == 2 && d[1] == ':' && (('a' <= d[0] && d[0] <= 'z') || ('A' <= d[0]
        && d[0] <= 'Z'));
    if n > 0 && d[n - 1] != '\\' && d[n - 1] != '/' && !bare_drive {
        r.append("\\");
        proof {
            reveal_strlit("\\");
        }
    }
    r.append("rim");
    r
}

/// The base directory that a storage profile names on native Windows: the
/// cache profile (the default) lives under `LOCALAPPDATA`; RAM is refused.
pub open spec fn spec_default_rim_base_windows(
    profile: Option<Seq<char>>,
    local_app_data: Option<Seq<char>>,
    external_base: Option<Seq<char>>,
) -> Result<Seq<char>, Seq<char>> {
    let cache = match local_app_data {
        Some(l) => Ok(windows_rim_under(l)),
        None => Err(local_app_data_message()),
    };
    match profile {
        None => cache,
        Some(p) => if p == ""@ || p == "cache"@ {
            cache
        } else if p == "external"@ {
            match external_base {
                Some(b) => Ok(b),
                None => Err(windows_external_message()),
            }
        } else if p == "ram"@ {
            Err(windows_ram_message())
        } else {
            Err("unknown RIM_PROFILE="@ + p + "; expected cache, external, or ram"@)
        },
    }
}

/// The base directory for a storage profile on native Windows, given
/// `LOCALAPPDATA` and `RIM_EXTERNAL_BASE`.
pub fn default_rim_base_windows(
    profile: Option<&str>,
    local_app_data: Option<&str>,
    external_base: Option<&str>,
) -> (r: Result<String, String>)
    ensures
        match r {
            Ok(b) => spec_default_rim_base_windows(
                opt_view(profile),
                opt_view(local_app_data),
                opt_view(external_base),
            ) == Ok::<Seq<char>, Seq<char>>(b@),
            Err(e) => spec_default_rim_base_windows(
                opt_view(profile),
                opt_view(local_app_data),
                opt_view(external_base),
            ) == Err::<Seq<char>, Seq<char>>(e@),
        },
{
    let cache = match local_app_data {
        Some(l) => Ok(windows_rim_dir(l)),
        None => Err("LOCALAPPDATA is not set; set RIM_BASE explicitly".to_owned()),
    };
    match profile {
        None => cache,
        Some(p) => {
            if str_eq(p, "") || str_eq(p, "cache") {
                cache
            } else if str_eq(p, "external") {
                match external_base {
                    Some(b) => Ok(b.to_owned()),
                    None => Err(
                        "RIM_PROFILE=external requires RIM_EXTERNAL_BASE; rim will not guess a drive like D:\\rim".to_owned(),
                    ),
                }
            } else if str_eq(p, "ram") {
                Err(
                    "RIM_PROFILE=ram is not available on native Windows. Use WSL for /dev/shm tmpfs behavior, or set RIM_BASE to a RAM disk manually.".to_owned(),
                )
            } else {
                let mut m = "unknown RIM_PROFILE=".to_owned();
                m.append(p);
                m.append("; expected cache, external, or ram");
                Err(m)
            }
        },
    }
}

/// The storage profiles on Unix: no profile, an empty one or `ram` puts
/// the layers in `/dev/shm/rim`; `cache` puts them in `rim` under the
/// user's cache directory; `external` uses `RIM_EXTERNAL_BASE` and is an
/// error without it; every other profile is an error. A set `RIM_BASE`
/// always wins over the profile.
pub proof fn lemma_profile_rules(
    profile: Seq<char>,
    cache_dir: Seq<char>,
    external: Option<Seq<char>>,
    rim_base: Seq<char>,
)
    ensures
        spec_default_rim_base(None, cache_dir, external) == Ok::<Seq<char>, Seq<char>>(
            "/dev/shm/rim"@,
        ),
        profile == ""@ || profile == "ram"@ ==> spec_default_rim_base(
            Some(profile),
            cache_dir,
            external,
        ) == Ok::<Seq<char>, Seq<char>>("/dev/shm/rim"@),
        profile == "cache"@ ==> spec_default_rim_base(Some(profile), cache_dir, external) == Ok::<
            Seq<char>,
            Seq<char>,
        >(path_join(cache_dir, "rim"@)),
        profile == "external"@ ==> spec_default_rim_base(Some(profile), cache_dir, external)
            == match external {
            Some(b) => Ok::<Seq<char>, Seq<char>>(b),
            None => Err::<Seq<char>, Seq<char>>(
                "RIM_PROFILE=external requires RIM_EXTERNAL_BASE"@,
            ),
        },
        !(profile == ""@ || profile == "ram"@ || profile == "cache"@ || profile == "external"@)
            ==> spec_default_rim_base(Some(profile), cache_dir, external) is Err,
        spec_select_rim_base(Some(rim_base), Some(profile), cache_dir, external) == Ok::<
            Seq<char>,
            Seq<char>,
        >(rim_base),
        spec_select_rim_base(None, Some(profile), cache_dir, external) == spec_default_rim_base(
            Some(profile),
            cache_dir,
            external,
        ),
{
    reveal_strlit("");
    reveal_strlit("ram");
    reveal_strlit("cache");
    reveal_strlit("external");
    if profile == ""@ {
        assert(profile.len() == 0);
    } else if profile == "ram"@ {
        assert(profile.len() == 3 && profile[0] == 'r' && profile[1] == 'a' && profile[2] == 'm');
    } else if profile == "cache"@ {
        assert(profile.len() == 5 && profile[0] == 'c' && profile[1] == 'a' && profile[2] == 'c' && profile[3] == 'h' && profile[4] == 'e');
    } else if profile == "external"@ {
        assert(profile.len() == 8 && profile[0] == 'e' && profile[1] == 'x' && profile[2] == 't' && profile[3] == 'e' && profile[4] == 'r' && profile[5] == 'n' && profile[6] == 'a' && profile[7] == 'l');
    }
}

/// The user's cache directory: `XDG_CACHE_HOME` when set, else `.cache`
/// under `HOME`, else `.cache`.
pub proof fn lemma_cache_dir_rules(xdg: Seq<char>, home: Seq<char>, h: Option<Seq<char>>)
    ensures
        spec_cache_dir(Some(xdg), h) == xdg,
        spec_cache_dir(None, Some(home)) == path_join(home, ".cache"@),
        spec_cache_dir(None, None) == ".cache"@,
{
}

/// The storage profiles on native Windows: no profile, an empty one or
/// `cache` puts the layers in `rim` under `LOCALAPPDATA` (an error when it
/// is unset); `external` uses `RIM_EXTERNAL_BASE` and is an error without
/// it; `ram` is refused; every other profile is an error.
pub proof fn lemma_windows_profile_rules(
    profile: Seq<char>,
    local: Option<Seq<char>>,
    external: Option<Seq<char>>,
)
    ensures
        profile == ""@ || profile == "cache"@ ==> spec_default_rim_base_windows(
            Some(profile),
            local,
            external,
        ) == match local {
            Some(l) => Ok::<Seq<char>, Seq<char>>(windows_rim_under(l)),
            None => Err::<Seq<char>, Seq<char>>(local_app_data_message()),
        },
        profile == "ram"@ ==> spec_default_rim_base_windows(Some(profile), local, external) is Err,
        profile == "external"@ && external is None ==> spec_default_rim_base_windows(
            Some(profile),
            local,
            external,
        ) is Err,
        profile == "external"@ ==> (external matches Some(b) ==> spec_default_rim_base_windows(
            Some(profile),
            local,
            external,
        ) == Ok::<Seq<char>, Seq<char>>(b)),
        !(profile == ""@ || profile == "cache"@ || profile == "external"@ || profile == "ram"@)
            ==> spec_default_rim_base_windows(Some(profile), local, external) is Err,
{
    reveal_strlit("");
    reveal_strlit("ram");
    reveal_strlit("cache");
    reveal_strlit("external");
    if profile == ""@ {
        assert(profile.len() == 0);
    } else if profile == "ram"@ {
        assert(profile.len() == 3 && profile[0] == 'r' && profile[1] == 'a' && profile[2] == 'm');
    } else if profile == "cache"@ {
        assert(profile.len() == 5 && profile[0] == 'c' && profile[1] == 'a' && profile[2] == 'c' && profile[3] == 'h' && profile[4] == 'e');
    } else if profile == "external"@ {
        assert(profile.len() == 8 && profile[0] == 'e' && profile[1] == 'x' && profile[2] == 't' && profile[3] == 'e' && profile[4] == 'r' && profile[5] == 'n' && profile[6] == 'a' && profile[7] == 'l');
    }
}

/// Where `rim` goes under a Windows directory: after a backslash, except
/// after a trailing separator or a bare drive such as `C:`, where it is
/// appended directly.
pub proof fn lemma_windows_rim_under(dir: Seq<char>)
    ensures
        dir.len() > 0 && dir.last() != '\\' && dir.last() != '/' && !(dir.len() == 2 && dir[1]
            == ':') ==> windows_rim_under(dir) == dir + seq!['\\'] + "rim"@,
        dir.len() == 2 && dir[1] == ':' && ('A' <= dir[0] <= 'Z' || 'a' <= dir[0] <= 'z')
            ==> windows_rim_under(dir) == dir + "rim"@,
        dir.len() > 0 && (dir.last() == '\\' || dir.last() == '/') ==> windows_rim_under(dir)
            == dir + "rim"@,
{
}

} // verus!
