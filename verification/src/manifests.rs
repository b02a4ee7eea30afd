use vstd::prelude::*;

verus! {

/// The contents of a sequence of string slices.
pub open spec fn str_views(v: Seq<&str>) -> Seq<Seq<char>> {
    v.map_values(|x: &str| x@)
}

/// The files that describe a project's dependencies and are mirrored into the
/// shadow project before an install.
pub open spec fn spec_manifest_names() -> Seq<Seq<char>> {
    seq![
        "package.json"@,
        "package-lock.json"@,
        "npm-shrinkwrap.json"@,
        "pnpm-lock.yaml"@,
        "bun.lock"@,
        "bun.lockb"@,
        "yarn.lock"@,
        ".npmrc"@,
        "bunfig.toml"@,
    ]
}

/// The manifests that an install may change and that are copied back to the
/// real project after a successful install.
pub open spec fn spec_mutable_manifest_names() -> Seq<Seq<char>> {
    seq![
        "package.json"@,
        "package-lock.json"@,
        "npm-shrinkwrap.json"@,
        "pnpm-lock.yaml"@,
        "bun.lock"@,
        "bun.lockb"@,
        "yarn.lock"@,
    ]
}

/// The names of the manifests mirrored into the shadow project.
pub fn manifest_names() -> (r: Vec<&'static str>)
    ensures
        str_views(r@) == spec_manifest_names(),
{
    let r = vec![
        "package.json",
        "package-lock.json",
        "npm-shrinkwrap.json",
        "pnpm-lock.yaml",
        "bun.lock",
        "bun.lockb",
        "yarn.lock",
        ".npmrc",
        "bunfig.toml",
    ];
    assert(str_views(r@) =~= spec_manifest_names());
    r
}

/// The names of the manifests copied back after an install.
pub fn mutable_manifest_names() -> (r: Vec<&'static str>)
    ensures
        str_views(r@) == spec_mutable_manifest_names(),
{
    let r = vec![
        "package.json",
        "package-lock.json",
        "npm-shrinkwrap.json",
        "pnpm-lock.yaml",
        "bun.lock",
        "bun.lockb",
        "yarn.lock",
    ];
    assert(str_views(r@) =~= spec_mutable_manifest_names());
    r
}

/// Every manifest that is copied back after an install is one of those
/// mirrored into the shadow project before it, so an install never writes a
/// file into the real project that the shadow did not receive from it.
pub proof fn lemma_copied_back_manifests_are_mirrored()
    ensures
        forall|i: int|
            0 <= i < spec_mutable_manifest_names().len() ==> spec_manifest_names().contains(
                #[trigger] spec_mutable_manifest_names()[i],
            ),
{
    assert forall|i: int| 0 <= i < spec_mutable_manifest_names().len() implies spec_manifest_names().contains(
        #[trigger] spec_mutable_manifest_names()[i],
    ) by {
        assert(spec_manifest_names()[i] == spec_mutable_manifest_names()[i]);
    }
}

/// Which files go where: `package.json`, every lockfile, `.npmrc` and
/// `bunfig.toml` are mirrored into the shadow project; `package.json` and
/// every lockfile are copied back after an install; the configuration files
/// `.npmrc` and `bunfig.toml` never are.
pub proof fn lemma_manifest_roles(name: Seq<char>)
    ensures
        name == "package.json"@ || name == "package-lock.json"@ || name == "npm-shrinkwrap.json"@
            || name == "pnpm-lock.yaml"@ || name == "bun.lock"@ || name == "bun.lockb"@ || name
            == "yarn.lock"@ ==> spec_manifest_names().contains(name)
            && spec_mutable_manifest_names().contains(name),
        name == ".npmrc"@ || name == "bunfig.toml"@ ==> spec_manifest_names().contains(name)
            && !spec_mutable_manifest_names().contains(name),
        spec_manifest_names().contains(name) ==> name == "package.json"@ || name
            == "package-lock.json"@ || name == "npm-shrinkwrap.json"@ || name == "pnpm-lock.yaml"@
            || name == "bun.lock"@ || name == "bun.lockb"@ || name == "yarn.lock"@ || name
            == ".npmrc"@ || name == "bunfig.toml"@,
{
    let m = spec_manifest_names();
    let b = spec_mutable_manifest_names();
    reveal_strlit("package.json");
    reveal_strlit("package-lock.json");
    reveal_strlit("npm-shrinkwrap.json");
    reveal_strlit("pnpm-lock.yaml");
    reveal_strlit("bun.lock");
    reveal_strlit("bun.lockb");
    reveal_strlit("yarn.lock");
    reveal_strlit(".npmrc");
    reveal_strlit("bunfig.toml");
    if name == "package.json"@ {
        assert(name.len() == 12 && name[0] == 'p' && name[1] == 'a' && name[2] == 'c' && name[3] == 'k' && name[4] == 'a' && name[5] == 'g' && name[6] == 'e' && name[7] == '.' && name[8] == 'j' && name[9] == 's' && name[10] == 'o' && name[11] == 'n');
    } else if name == "package-lock.json"@ {
        assert(name.len() == 17 && name[0] == 'p' && name[1] == 'a' && name[2] == 'c' && name[3] == 'k' && name[4] == 'a' && name[5] == 'g' && name[6] == 'e' && name[7] == '-' && name[8] == 'l' && name[9] == 'o' && name[10] == 'c' && name[11] == 'k' && name[12] == '.' && name[13] == 'j' && name[14] == 's' && name[15] == 'o' && name[16] == 'n');
    } else if name == "npm-shrinkwrap.json"@ {
        assert(name.len() == 19 && name[0] == 'n' && name[1] == 'p' && name[2] == 'm' && name[3] == '-' && name[4] == 's' && name[5] == 'h' && name[6] == 'r' && name[7] == 'i' && name[8] == 'n' && name[9] == 'k' && name[10] == 'w' && name[11] == 'r' && name[12] == 'a' && name[13] == 'p' && name[14] == '.' && name[15] == 'j' && name[16] == 's' && name[17] == 'o' && name[18] == 'n');
    } else if name == "pnpm-lock.yaml"@ {
        assert(name.len() == 14 && name[0] == 'p' && name[1] == 'n' && name[2] == 'p' && name[3] == 'm' && name[4] == '-' && name[5] == 'l' && name[6] == 'o' && name[7] == 'c' && name[8] == 'k' && name[9] == '.' && name[10] == 'y' && name[11] == 'a' && name[12] == 'm' && name[13] == 'l');
    } else if name == "bun.lock"@ {
        assert(name.len() == 8 && name[0] == 'b' && name[1] == 'u' && name[2] == 'n' && name[3] == '.' && name[4] == 'l' && name[5] == 'o' && name[6] == 'c' && name[7] == 'k');
    } else if name == "bun.lockb"@ {
        assert(name.len() == 9 && name[0] == 'b' && name[1] == 'u' && name[2] == 'n' && name[3] == '.' && name[4] == 'l' && name[5] == 'o' && name[6] == 'c' && name[7] == 'k' && name[8] == 'b');
    } else if name == "yarn.lock"@ {
        assert(name.len() == 9 && name[0] == 'y' && name[1] == 'a' && name[2] == 'r' && name[3] == 'n' && name[4] == '.' && name[5] == 'l' && name[6] == 'o' && name[7] == 'c' && name[8] == 'k');
    } else if name == ".npmrc"@ {
        assert(name.len() == 6 && name[0] == '.' && name[1] == 'n' && name[2] == 'p' && name[3] == 'm' && name[4] == 'r' && name[5] == 'c');
    } else if name == "bunfig.toml"@ {
        assert(name.len() == 11 && name[0] == 'b' && name[1] == 'u' && name[2] == 'n' && name[3] == 'f' && name[4] == 'i' && name[5] == 'g' && name[6] == '.' && name[7] == 't' && name[8] == 'o' && name[9] == 'm' && name[10] == 'l');
    }
    if name == "package.json"@ {
        assert(m[0] == name && b[0] == name);
    } else if name == "package-lock.json"@ {
        assert(m[1] == name && b[1] == name);
    } else if name == "npm-shrinkwrap.json"@ {
        assert(m[2] == name && b[2] == name);
    } else if name == "pnpm-lock.yaml"@ {
        assert(m[3] == name && b[3] == name);
    } else if name == "bun.lock"@ {
        assert(m[4] == name && b[4] == name);
    } else if name == "bun.lockb"@ {
        assert(m[5] == name && b[5] == name);
    } else if name == "yarn.lock"@ {
        assert(m[6] == name && b[6] == name);
    } else if name == ".npmrc"@ {
        assert(m[7] == name);
    } else if name == "bunfig.toml"@ {
        assert(m[8] == name);
    }
    if m.contains(name) {
        let k = choose|k: int| 0 <= k < m.len() && m[k] == name;
        assert(m[k] == name);
    }
}

} // verus!
