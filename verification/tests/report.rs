use rust_engine::SystemInfo;

fn snapshot() -> SystemInfo {
    SystemInfo {
        current_dir: "/work".to_string(),
        home_dir: "/home/dev".to_string(),
        temp_dir: "/tmp".to_string(),
        username: "dev".to_string(),
        hostname: "devbox".to_string(),
        shell: "/bin/bash".to_string(),
        os: "linux".to_string(),
        arch: "x86_64".to_string(),
        total_ram_kb: 1000,
        used_ram_kb: 250,
        cpu_brand: "Acme 9000".to_string(),
        cpu_cores: 8,
        gpu_names: vec!["First GPU".to_string(), "Second GPU".to_string()],
    }
}

#[test]
fn report_has_the_fixed_layout() {
    let expected = "System Information\n\
                    ------------------\n\
                    OS           : linux (x86_64)\n\
                    User         : dev\n\
                    Host         : devbox\n\
                    Shell        : /bin/bash\n\
                    Working dir  : /work\n\
                    Home dir     : /home/dev\n\
                    Temp dir     : /tmp\n\
                    Total RAM    : 1000 KB\n\
                    Used RAM     : 250 KB\n\
                    RAM Usage    : 25.00 %\n\
                    CPU Brand    : Acme 9000\n\
                    CPU Cores    : 8\n\
                    GPUs         : First GPU, Second GPU\n";
    assert_eq!(snapshot().format_report(), expected);
}

#[test]
fn zero_total_ram_shows_zero_usage() {
    let mut info = snapshot();
    info.total_ram_kb = 0;
    info.used_ram_kb = 0;
    let report = info.format_report();
    assert!(report.contains("RAM Usage    : 0.00 %"));
    assert!(report.contains("Total RAM    : 0 KB"));
}

#[test]
fn quarter_usage_shows_twenty_five_percent() {
    let report = snapshot().format_report();
    assert!(report.contains("RAM Usage    : 25.00 %"));
}

#[test]
fn fractional_usage_keeps_two_decimals() {
    let mut info = snapshot();
    info.total_ram_kb = 3;
    info.used_ram_kb = 1;
    let report = info.format_report();
    assert!(report.contains("RAM Usage    : 33.33 %"));
}

#[test]
fn single_gpu_is_joined_without_separator() {
    let mut info = snapshot();
    info.gpu_names = vec!["Solo".to_string()];
    let report = info.format_report();
    assert!(report.contains("GPUs         : Solo\n"));
}

#[test]
fn largest_ram_reading_is_rendered_in_full() {
    let mut info = snapshot();
    info.total_ram_kb = u64::MAX;
    info.used_ram_kb = u64::MAX;
    let report = info.format_report();
    assert!(report.contains("Total RAM    : 18446744073709551615 KB"));
    assert!(report.contains("RAM Usage    : 100.00 %"));
}

#[test]
fn usage_above_total_exceeds_hundred_percent() {
    let mut info = snapshot();
    info.total_ram_kb = 100;
    info.used_ram_kb = 250;
    let report = info.format_report();
    assert!(report.contains("RAM Usage    : 250.00 %"));
}

#[test]
fn zero_cores_renders_zero() {
    let mut info = snapshot();
    info.cpu_cores = 0;
    let report = info.format_report();
    assert!(report.contains("CPU Cores    : 0\n"));
}
