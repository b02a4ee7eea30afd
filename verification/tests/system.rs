use rim::meminfo::{parse_meminfo, MemoryInfo};
use rim::mounts::{mount_info_for, unescape_mount_path};
use rim::storage::{df_usage, install_risk, kib_bytes, rim_mode, DiskUsage, InstallRisk, RimMode};

const DF: &str = "Filesystem     1024-blocks    Used Available Capacity Mounted on\ntmpfs              8000000  100000   7900000       2% /dev/shm\n";

#[test]
fn df_output_is_read_in_bytes() {
    assert_eq!(
        df_usage(DF),
        Some(DiskUsage { total_bytes: 8192000000, used_bytes: 102400000, available_bytes: 8089600000 })
    );
}

#[test]
fn df_output_needs_six_fields_and_numbers() {
    assert_eq!(df_usage("header only\n"), None);
    assert_eq!(df_usage(""), None);
    assert_eq!(df_usage("h\ntmpfs 1 2 3 4%\n"), None);
    assert_eq!(df_usage("h\ntmpfs 1 x 3 4% /\n"), None);
    assert_eq!(df_usage("h\r\ntmpfs +1 2 3 4% /\r\n"), Some(DiskUsage { total_bytes: 1024, used_bytes: 2048, available_bytes: 3072 }));
    assert_eq!(df_usage("h\ntmpfs -1 2 3 4% /"), None);
    assert_eq!(df_usage("h\ntmpfs 18446744073709551616 2 3 4% /"), None);
}

#[test]
fn kib_conversion_saturates() {
    assert_eq!(kib_bytes(0), 0);
    assert_eq!(kib_bytes(3), 3072);
    assert_eq!(kib_bytes(u64::MAX), u64::MAX);
    assert_eq!(kib_bytes(u64::MAX / 1024 + 1), u64::MAX);
    assert_eq!(df_usage("h\nfs 18446744073709551615 0 0 0% /").unwrap().total_bytes, u64::MAX);
}

#[test]
fn install_risk_thresholds() {
    assert_eq!(install_risk(None), InstallRisk::Unknown);
    assert_eq!(install_risk(Some(0)), InstallRisk::High);
    assert_eq!(install_risk(Some(512 * 1024 * 1024 - 1)), InstallRisk::High);
    assert_eq!(install_risk(Some(512 * 1024 * 1024)), InstallRisk::Medium);
    assert_eq!(install_risk(Some(1024 * 1024 * 1024 - 1)), InstallRisk::Medium);
    assert_eq!(install_risk(Some(1024 * 1024 * 1024)), InstallRisk::Low);
    assert_eq!(InstallRisk::High.name(), "high");
    assert_eq!(InstallRisk::Medium.name(), "medium");
    assert_eq!(InstallRisk::Low.name(), "low");
    assert_eq!(InstallRisk::Unknown.name(), "unknown");
    assert!(InstallRisk::High.warrants_warning());
    assert!(InstallRisk::Medium.warrants_warning());
    assert!(!InstallRisk::Low.warrants_warning());
    assert!(!InstallRisk::Unknown.warrants_warning());
}

#[test]
fn install_risk_never_rises_with_space() {
    let rank = |r: InstallRisk| match r {
        InstallRisk::High => 2,
        InstallRisk::Medium => 1,
        InstallRisk::Low => 0,
        InstallRisk::Unknown => -1,
    };
    let samples = [0u64, 1, 536870911, 536870912, 900000000, 1073741823, 1073741824, u64::MAX];
    for a in samples {
        for b in samples {
            if a <= b {
                assert!(rank(install_risk(Some(b))) <= rank(install_risk(Some(a))));
            }
        }
    }
}

#[test]
fn modes_of_the_base() {
    assert_eq!(rim_mode(Some("tmpfs"), "/dev/shm/rim", "/home/u/.cache"), RimMode::Tmpfs);
    assert_eq!(rim_mode(Some("ext4"), "/home/u/.cache/rim", "/home/u/.cache"), RimMode::Cache);
    assert_eq!(rim_mode(None, "/home/u/.cache/rim", "/home/u/.cache"), RimMode::Cache);
    assert_eq!(rim_mode(None, "/home/u/.cachex/rim", "/home/u/.cache"), RimMode::Disk);
    assert_eq!(rim_mode(Some("ext4"), "/mnt/rim", "/home/u/.cache"), RimMode::Disk);
    assert_eq!(RimMode::Tmpfs.name(), "tmpfs");
    assert_eq!(RimMode::Cache.name(), "cache");
    assert_eq!(RimMode::Disk.name(), "disk");
}

#[test]
fn mount_paths_are_unescaped() {
    assert_eq!(unescape_mount_path("/mnt/my\\040disk"), "/mnt/my disk");
    assert_eq!(unescape_mount_path("/a\\011b\\012c\\134d"), "/a\tb\nc\\d");
    assert_eq!(unescape_mount_path("/plain/path"), "/plain/path");
    assert_eq!(unescape_mount_path("/x\\134040"), "/x\\040");
    assert_eq!(unescape_mount_path("\\04"), "\\04");
}

const MOUNTS: &str = "/dev/sda1 / ext4 rw,relatime 0 0\ntmpfs /dev/shm tmpfs rw,nosuid 0 0\nbroken\n/dev/sdb1 /mnt/my\\040disk ext4 rw 0 0\n";

#[test]
fn longest_mount_prefix_wins() {
    let m = mount_info_for(MOUNTS, "/dev/shm/rim").unwrap();
    assert_eq!(m.mount_point, "/dev/shm");
    assert_eq!(m.fs_type, "tmpfs");
    let m = mount_info_for(MOUNTS, "/home/u").unwrap();
    assert_eq!(m.mount_point, "/");
    assert_eq!(m.fs_type, "ext4");
    let m = mount_info_for(MOUNTS, "/mnt/my disk/x").unwrap();
    assert_eq!(m.mount_point, "/mnt/my disk");
    let m = mount_info_for(MOUNTS, "/dev/shmx").unwrap();
    assert_eq!(m.mount_point, "/");
    assert!(mount_info_for("", "/x").is_none());
    assert!(mount_info_for("tmpfs /dev/shm tmpfs\n", "relative").is_none());
}

#[test]
fn first_of_equal_mounts_wins() {
    let m = mount_info_for("a /data ext4\nb /data xfs\n", "/data/x").unwrap();
    assert_eq!(m.fs_type, "ext4");
}

#[test]
fn meminfo_is_read_in_bytes() {
    let info = parse_meminfo(
        "MemTotal:       16384 kB\nMemFree:          1024 kB\nMemAvailable:    8192 kB\nBuffers: 1 kB\nShmem:             10 kB\n",
    );
    assert_eq!(
        info,
        MemoryInfo { total_bytes: Some(16777216), available_bytes: Some(8388608), shmem_bytes: Some(10240) }
    );
}

#[test]
fn meminfo_skips_bad_lines_and_keeps_the_last() {
    let info = parse_meminfo("MemTotal:\nMemTotal: x kB\nShmem 5\nShmem:: 6 kB\n\nMemAvailable: 1\n");
    assert_eq!(info, MemoryInfo { total_bytes: None, available_bytes: Some(1024), shmem_bytes: Some(6144) });
    assert_eq!(parse_meminfo(""), MemoryInfo { total_bytes: None, available_bytes: None, shmem_bytes: None });
}
