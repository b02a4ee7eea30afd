use rim::platform::{exit_status_code, pid_is_alive, pid_proc_path, platform_name, platform_name_for, PidProbe};

#[test]
fn platform_name_is_known() {
    assert!(matches!(platform_name(), "unix" | "windows"));
}

#[test]
fn platform_name_follows_separator() {
    assert_eq!(platform_name_for('/'), "unix");
    assert_eq!(platform_name_for('\\'), "windows");
}

#[test]
fn platform_name_on_this_build() {
    let expected = if std::path::MAIN_SEPARATOR == '\\' { "windows" } else { "unix" };
    assert_eq!(platform_name(), expected);
}

#[test]
fn pid_proc_path_is_under_proc() {
    assert_eq!(pid_proc_path(1), "/proc/1");
    assert_eq!(pid_proc_path(0), "/proc/0");
    assert_eq!(pid_proc_path(4294967295), "/proc/4294967295");
    assert_eq!(pid_proc_path(31337), "/proc/31337");
}

#[test]
fn pid_alive_from_proc_entry() {
    assert!(pid_is_alive(7, &PidProbe::ProcEntry(true)));
    assert!(!pid_is_alive(7, &PidProbe::ProcEntry(false)));
}

#[test]
fn pid_alive_when_tasklist_fails() {
    assert!(pid_is_alive(42, &PidProbe::Tasklist(None)));
}

#[test]
fn pid_alive_from_tasklist_output() {
    let out = "node.exe                     4242 Console                    1     52,000 K\r\n";
    assert!(pid_is_alive(4242, &PidProbe::Tasklist(Some(out.to_owned()))));
    assert!(!pid_is_alive(424, &PidProbe::Tasklist(Some(out.to_owned()))));
    let none = "INFO: No tasks are running which match the specified criteria.\r\n";
    assert!(!pid_is_alive(4242, &PidProbe::Tasklist(Some(none.to_owned()))));
}

#[test]
fn exit_code_from_code_or_signal() {
    assert_eq!(exit_status_code(Some(0), None), 0);
    assert_eq!(exit_status_code(Some(42), None), 42);
    assert_eq!(exit_status_code(Some(300), None), 255);
    assert_eq!(exit_status_code(Some(-1), None), 0);
    assert_eq!(exit_status_code(None, Some(2)), 130);
    assert_eq!(exit_status_code(None, Some(15)), 143);
    assert_eq!(exit_status_code(None, Some(200)), 255);
    assert_eq!(exit_status_code(None, None), 1);
    assert_eq!(exit_status_code(Some(3), Some(9)), 3);
}

#[test]
fn unix_default_ram_profile_uses_dev_shm() {
    assert_eq!(rim::config::default_rim_base(None, "/home/u/.cache", None), Ok("/dev/shm/rim".to_owned()));
    assert_eq!(rim::config::select_rim_base(None, None, "/home/u/.cache", None), Ok("/dev/shm/rim".to_owned()));
}

#[test]
fn windows_ram_profile_is_rejected() {
    let err = rim::config::default_rim_base_windows(Some("ram"), None, None).unwrap_err();
    assert!(err.contains("RIM_PROFILE=ram is not available on native Windows"));
}

#[test]
fn windows_cache_profile_uses_local_app_data() {
    assert_eq!(
        rim::config::default_rim_base_windows(Some("cache"), Some(r"C:\Users\rim\AppData\Local"), None).unwrap(),
        r"C:\Users\rim\AppData\Local\rim"
    );
}

#[test]
fn windows_external_profile_requires_explicit_base() {
    let err = rim::config::default_rim_base_windows(Some("external"), None, None).unwrap_err();
    assert!(err.contains("RIM_PROFILE=external requires RIM_EXTERNAL_BASE"));
}
