use vstd::prelude::*;
use crate::paths::{path_starts_with, spec_path_starts_with};
use crate::text::{chars_of, lines, parse_u64, spec_parse_u64, split_lines, split_words, views, words};

verus! {

/// A count of KiB in bytes, saturating at `u64::MAX`.
pub open spec fn kib_to_bytes(kib: u64) -> u64 {
    if kib * 1024 > u64::MAX {
        u64::MAX
    } else {
        (kib * 1024) as u64
    }
}

/// Converts KiB to bytes, saturating.
pub fn kib_bytes(kib: u64) -> (r: u64)
    ensures
        r == kib_to_bytes(kib),
{
    match kib.checked_mul(1024) {
        Some(b) => b,
        None => u64::MAX,
    }
}

/// Size, use and free space of a file system, in bytes.
#[derive(Clone, Copy, Debug, PartialEq, Eq, Structural)]
pub struct DiskUsage {
    pub total_bytes: u64,
    pub used_bytes: u64,
    pub available_bytes: u64,
}

/// What the portable output of `df -kP <path>` says of the file system: the
/// second line must have at least six fields, of which the second, third and
/// fourth are the size, use and free space in KiB.
pub open spec fn spec_df_usage(output: Seq<char>) -> Option<DiskUsage> {
    let ls = lines(output);
    if ls.len() < 2 {
        None
    } else {
        let f = words(ls[1]);
        if f.len() < 6 {
            None
        } else {
            match (spec_parse_u64(f[1]), spec_parse_u64(f[2]), spec_parse_u64(f[3])) {
                (Some(t), Some(u), Some(a)) => Some(
                    DiskUsage {
                        total_bytes: kib_to_bytes(t),
                        used_bytes: kib_to_bytes(u),
                        available_bytes: kib_to_bytes(a),
                    },
                ),
                _ => None,
            }
        }
    }
}

/// Reads the disk usage from the output of `df -kP`.
pub fn df_usage(output: &str) -> (r: Option<DiskUsage>)
    ensures
        r == spec_df_usage(output@),
{
    let ls = split_lines(&chars_of(output));
    if ls.len() < 2 {
        return None;
    }
    let f = split_words(&ls[1]);
    assert(views(ls@)[1] == ls@[1]@);
    if f.len() < 6 {
        return None;
    }
    assert(views(f@)[1] == f@[1]@ && views(f@)[2] == f@[2]@ && views(f@)[3] == f@[3]@);
    let t = parse_u64(&f[1]);
    let u = parse_u64(&f[2]);
    let a = parse_u64(&f[3]);
    match (t, u, a) {
        (Some(t), Some(u), Some(a)) => Some(
            DiskUsage {
                total_bytes: kib_bytes(t),
                used_bytes: kib_bytes(u),
                available_bytes: kib_bytes(a),
            },
        ),
        _ => None,
    }
}

/// How likely an install is to run out of space in the layer's base.
#[derive(Clone, Copy, Debug, PartialEq, Eq, Structural)]
pub enum InstallRisk {
    High,
    Medium,
    Low,
    Unknown,
}

/// Below this much free space an install is a high risk: 512 MiB.
pub const HIGH_RISK_BYTES: u64 = 536870912u64;

/// Below this much free space an install is a medium risk: 1 GiB.
pub const MEDIUM_RISK_BYTES: u64 = 1073741824u64;

pub open spec fn spec_install_risk(available: Option<u64>) -> InstallRisk {
    match available {
        Some(b) => if b < HIGH_RISK_BYTES {
            InstallRisk::High
        } else if b < MEDIUM_RISK_BYTES {
            InstallRisk::Medium
        } else {
            InstallRisk::Low
        },
        None => InstallRisk::Unknown,
    }
}

/// The risk of an install given the free bytes in the layer's base, when
/// they are known.
pub fn install_risk(available: Option<u64>) -> (r: InstallRisk)
    ensures
        r == spec_install_risk(available),
{
    match available {
        Some(b) => if b < HIGH_RISK_BYTES {
            InstallRisk::High
        } else if b < MEDIUM_RISK_BYTES {
            InstallRisk::Medium
        } else {
            InstallRisk::Low
        },
        None => InstallRisk::Unknown,
    }
}

/// The rank of a known risk: higher is riskier.
pub open spec fn risk_rank(r: InstallRisk) -> int {
    match r {
        InstallRisk::High => 2,
        InstallRisk::Medium => 1,
        InstallRisk::Low => 0,
        InstallRisk::Unknown => -1,
    }
}

/// More free space never makes an install riskier.
pub proof fn lemma_install_risk_monotone(a: u64, b: u64)
    requires
        a <= b,
    ensures
        risk_rank(spec_install_risk(Some(b))) <= risk_rank(spec_install_risk(Some(a))),
{
}

impl InstallRisk {
    /// A warning about free space is printed for medium and high risks.
    pub fn warrants_warning(self) -> (r: bool)
        ensures
            r == (self == InstallRisk::High || self == InstallRisk::Medium),
    {
        match self {
            InstallRisk::High | InstallRisk::Medium => true,
            _ => false,
        }
    }

    /// The word that reports the risk.
    pub fn name(self) -> (r: &'static str)
        ensures
            r@ == match self {
                InstallRisk::High => "high"@,
                InstallRisk::Medium => "medium"@,
                InstallRisk::Low => "low"@,
                InstallRisk::Unknown => "unknown"@,
            },
    {
        match self {
            InstallRisk::High => "high",
            InstallRisk::Medium => "medium",
            InstallRisk::Low => "low",
            InstallRisk::Unknown => "unknown",
        }
    }
}


/// Where the layer's base lives.
#[derive(Clone, Copy, Debug, PartialEq, Eq, Structural)]
pub enum RimMode {
    /// On a tmpfs, in RAM.
    Tmpfs,
    /// Under the user's cache directory.
    Cache,
    /// Elsewhere on disk.
    Disk,
}

pub open spec fn spec_rim_mode(fs_type: Option<Seq<char>>, rim_base: Seq<char>, cache_dir: Seq<char>) -> RimMode {
    if fs_type == Some("tmpfs"@) {
        RimMode::Tmpfs
    } else if spec_path_starts_with(rim_base, cache_dir) {
        RimMode::Cache
    } else {
        RimMode::Disk
    }
}

/// The mode of the layer's base `rim_base`, given the type of the file system
/// that holds it (when known) and the user's cache directory.
pub fn rim_mode(fs_type: Option<&str>, rim_base: &str, cache_dir: &str) -> (r: RimMode)
    ensures
        r == spec_rim_mode(
            match fs_type {
                Some(t) => Some(t@),
                None => None,
            },
            rim_base@,
            cache_dir@,
        ),
{
    let tmpfs = match fs_type {
        Some(t) => crate::text::str_eq(t, "tmpfs"),
        None => false,
    };
    if tmpfs {
        RimMode::Tmpfs
    } else if path_starts_with(rim_base, cache_dir) {
        RimMode::Cache
    } else {
        RimMode::Disk
    }
}

impl RimMode {
    /// The word that reports the mode.
    pub fn name(self) -> (r: &'static str)
        ensures
            r@ == match self {
                RimMode::Tmpfs => "tmpfs"@,
                RimMode::Cache => "cache"@,
                RimMode::Disk => "disk"@,
            },
    {
        match self {
            RimMode::Tmpfs => "tmpfs",
            RimMode::Cache => "cache",
            RimMode::Disk => "disk",
        }
    }
}

/// The risk of an install from the free space of the layer's base: under
/// 512 MiB it is high, from 512 MiB to under 1 GiB medium, from 1 GiB on
/// low, and unknown when the free space is unknown. A warning is due for
/// the medium and high risks only.
pub proof fn lemma_install_risk_thresholds(b: u64)
    ensures
        b < 536870912 ==> spec_install_risk(Some(b)) == InstallRisk::High,
        536870912 <= b < 1073741824 ==> spec_install_risk(Some(b)) == InstallRisk::Medium,
        1073741824 <= b ==> spec_install_risk(Some(b)) == InstallRisk::Low,
        spec_install_risk(None) == InstallRisk::Unknown,
{
}

/// The mode of the layer's base: a tmpfs is RAM whatever its path; off a
/// tmpfs, a base inside the user's cache directory is the cache mode, and
/// anything else is on disk. A known file system type other than tmpfs
/// never gives the RAM mode.
pub proof fn lemma_rim_mode_rules(fs_type: Option<Seq<char>>, rim_base: Seq<char>, cache_dir: Seq<char>)
    ensures
        fs_type == Some("tmpfs"@) ==> spec_rim_mode(fs_type, rim_base, cache_dir) == RimMode::Tmpfs,
        fs_type != Some("tmpfs"@) && spec_path_starts_with(rim_base, cache_dir) ==> spec_rim_mode(
            fs_type,
            rim_base,
            cache_dir,
        ) == RimMode::Cache,
        fs_type != Some("tmpfs"@) && !spec_path_starts_with(rim_base, cache_dir) ==> spec_rim_mode(
            fs_type,
            rim_base,
            cache_dir,
        ) == RimMode::Disk,
        fs_type != Some("tmpfs"@) && rim_base == cache_dir ==> spec_rim_mode(
            fs_type,
            rim_base,
            cache_dir,
        ) == RimMode::Cache,
{
    let c = crate::paths::path_components(rim_base);
    assert(c.subrange(0, c.len() as int) =~= c);
}

/// KiB are counted as 1024 bytes each, and a count too large for `u64`
/// saturates instead of wrapping.
pub proof fn lemma_kib_to_bytes(kib: u64)
    ensures
        kib * 1024 <= u64::MAX ==> kib_to_bytes(kib) == kib * 1024,
        kib * 1024 > u64::MAX ==> kib_to_bytes(kib) == u64::MAX,
        kib_to_bytes(kib) >= kib,
{
}

} // verus!
