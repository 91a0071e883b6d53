use rust_engine::EnvProbe;
use rust_engine::SystemInfo;

fn sample_probe() -> EnvProbe {
    EnvProbe {
        current_dir: Ok("/work/project".to_string()),
        temp_dir: "/tmp".to_string(),
        home: Some("/home/dev".to_string()),
        userprofile: None,
        user: Some("dev".to_string()),
        username: None,
        hostname: Some("devbox".to_string()),
        computername: None,
        shell: Some("/bin/bash".to_string()),
        comspec: None,
        os: "linux".to_string(),
        arch: "x86_64".to_string(),
        gpu_listing: None,
    }
}

#[test]
fn system_info_can_be_created() {
    let info = SystemInfo::new(&sample_probe());
    assert!(!info.os.is_empty());
    assert!(!info.arch.is_empty());
}

#[test]
fn unix_or_windows() {
    let info = SystemInfo::new(&sample_probe());
    assert!(info.is_windows() || info.is_unix());
}

#[test]
fn windows_probe_is_windows_only() {
    let mut probe = sample_probe();
    probe.os = "windows".to_string();
    let info = SystemInfo::new(&probe);
    assert!(info.is_windows());
    assert!(!info.is_unix());
}

#[test]
fn macos_probe_is_unix_only() {
    let mut probe = sample_probe();
    probe.os = "macos".to_string();
    let info = SystemInfo::new(&probe);
    assert!(!info.is_windows());
    assert!(info.is_unix());
}

#[test]
fn unrecognized_os_is_neither() {
    let mut probe = sample_probe();
    probe.os = "freebsd".to_string();
    let info = SystemInfo::new(&probe);
    assert!(!info.is_windows());
    assert!(!info.is_unix());
}

#[test]
fn full_capture_resolves_identity() {
    let info = SystemInfo::new(&sample_probe());
    assert_eq!(info.current_dir, "/work/project");
    assert_eq!(info.home_dir, "/home/dev");
    assert_eq!(info.temp_dir, "/tmp");
    assert_eq!(info.username, "dev");
    assert_eq!(info.hostname, "devbox");
    assert_eq!(info.shell, "/bin/bash");
    assert_eq!(info.os, "linux");
    assert_eq!(info.arch, "x86_64");
    assert!(!info.gpu_names.is_empty());
}

#[test]
fn hostname_and_shell_failures_are_absorbed() {
    let mut probe = sample_probe();
    probe.hostname = None;
    probe.computername = None;
    probe.shell = None;
    probe.comspec = None;
    let info = SystemInfo::try_new(&probe).expect("non-fatal fallbacks must not fail");
    assert_eq!(info.hostname, "unknown_host");
    assert_eq!(info.shell, "unknown_shell");
    assert_eq!(info.username, "dev");
}

#[test]
fn degraded_path_on_current_dir_failure() {
    let mut probe = sample_probe();
    probe.current_dir = Err("permission denied".to_string());
    let info = SystemInfo::new(&probe);
    assert_eq!(info.os, "linux");
    assert_eq!(info.arch, "x86_64");
    assert_eq!(info.username, "unknown_user");
    assert_eq!(info.hostname, "unknown_host");
    assert_eq!(info.shell, "unknown_shell");
    assert_eq!(info.current_dir, ".");
    assert_eq!(info.home_dir, "");
    assert_eq!(info.total_ram_kb, 0);
    assert_eq!(info.used_ram_kb, 0);
    assert_eq!(info.cpu_brand, "unknown_cpu");
    assert_eq!(info.cpu_cores, 0);
    assert_eq!(info.gpu_names, vec!["unknown".to_string()]);
}

#[test]
fn degraded_path_on_missing_home() {
    let mut probe = sample_probe();
    probe.home = None;
    probe.userprofile = None;
    let info = SystemInfo::new(&probe);
    assert_eq!(info.username, "unknown_user");
    assert_eq!(info.gpu_names, vec!["unknown".to_string()]);
    assert_eq!(info.os, "linux");
}

#[test]
fn try_new_reports_io_error() {
    let mut probe = sample_probe();
    probe.current_dir = Err("permission denied".to_string());
    let err = SystemInfo::try_new(&probe).expect_err("mandatory step failed");
    assert_eq!(err.message(), "IO error: permission denied");
}

#[test]
fn try_new_reports_missing_home() {
    let mut probe = sample_probe();
    probe.home = None;
    probe.userprofile = None;
    let err = SystemInfo::try_new(&probe).expect_err("mandatory step failed");
    assert_eq!(err.message(), "Missing environment variable: HOME/USERPROFILE");
}

#[test]
fn try_new_reports_missing_user() {
    let mut probe = sample_probe();
    probe.user = None;
    probe.username = None;
    let err = SystemInfo::try_new(&probe).expect_err("mandatory step failed");
    assert_eq!(err.message(), "Missing environment variable: USER/USERNAME");
}
