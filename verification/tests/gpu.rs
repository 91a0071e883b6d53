use rust_engine::get_gpus;
use rust_engine::GpuPlatform;

#[test]
fn linux_parses_lspci_vga_line() {
    let listing = "00:1f.3 Audio device [0403]: Intel Corporation Device [8086:7a50]\n\
                   01:00.0 VGA compatible controller: NVIDIA Corporation TU117 [GeForce GTX 1650]\n"
        .to_string();
    let gpus = get_gpus(GpuPlatform::Linux, &Some(listing));
    assert_eq!(gpus, vec!["NVIDIA Corporation TU117 [GeForce GTX 1650]".to_string()]);
}

#[test]
fn linux_matches_case_insensitively_and_3d() {
    let listing = "02:00.0 3D controller: NVIDIA Corporation GP108M\n\
                   03:00.0 vga compatible controller: Acme Corp Display 9000  \n"
        .to_string();
    let gpus = get_gpus(GpuPlatform::Linux, &Some(listing));
    assert_eq!(
        gpus,
        vec!["NVIDIA Corporation GP108M".to_string(), "Acme Corp Display 9000".to_string()]
    );
}

#[test]
fn linux_without_matching_lines_degrades() {
    let listing = "00:1f.3 Audio device: Intel Corporation Device\n".to_string();
    let gpus = get_gpus(GpuPlatform::Linux, &Some(listing));
    assert_eq!(gpus, vec!["unknown".to_string()]);
}

#[test]
fn failed_listing_degrades_on_every_platform() {
    for platform in [
        GpuPlatform::Linux,
        GpuPlatform::Windows,
        GpuPlatform::MacOs,
        GpuPlatform::Generic,
    ] {
        let gpus = get_gpus(platform, &None);
        assert_eq!(gpus, vec!["unknown".to_string()]);
    }
}

#[test]
fn windows_skips_headers_and_trims() {
    let listing = "Name\n----\nNVIDIA GeForce RTX 3060   \n\nIntel(R) UHD Graphics 770\n"
        .to_string();
    let gpus = get_gpus(GpuPlatform::Windows, &Some(listing));
    assert_eq!(
        gpus,
        vec!["NVIDIA GeForce RTX 3060".to_string(), "Intel(R) UHD Graphics 770".to_string()]
    );
}

#[test]
fn windows_empty_body_degrades() {
    let listing = "Name\n----\n\n".to_string();
    let gpus = get_gpus(GpuPlatform::Windows, &Some(listing));
    assert_eq!(gpus, vec!["unknown".to_string()]);
}

#[test]
fn macos_selects_chipset_model_lines() {
    let listing = "Graphics/Displays:\n\n    Apple M2:\n\n      Chipset Model: Apple M2\n\
                   \n      Type: GPU\n"
        .to_string();
    let gpus = get_gpus(GpuPlatform::MacOs, &Some(listing));
    assert_eq!(gpus, vec!["Apple M2".to_string()]);
}

#[test]
fn generic_platform_always_degrades() {
    let listing = "01:00.0 VGA compatible controller: Acme Display\n".to_string();
    let gpus = get_gpus(GpuPlatform::Generic, &Some(listing));
    assert_eq!(gpus, vec!["unknown".to_string()]);
}

#[test]
fn crlf_lines_are_handled() {
    let listing = "header\r\n01:00.0 VGA compatible controller: Acme Display\r\n".to_string();
    let gpus = get_gpus(GpuPlatform::Linux, &Some(listing));
    assert_eq!(gpus, vec!["Acme Display".to_string()]);
}
