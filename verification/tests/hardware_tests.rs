use zeptoclaw::cli::hardware::device_info_text;
use zeptoclaw::cli::hardware::device_line;
use zeptoclaw::cli::hardware::device_not_found_text;
use zeptoclaw::cli::hardware::devices_found_text;
use zeptoclaw::cli::hardware::version_text;
use zeptoclaw::cli::hardware::DeviceView;

fn nucleo() -> DeviceView {
    DeviceView {
        vid: 0x0483,
        pid: 0x374b,
        name: "Nucleo-F401RE".to_string(),
        architecture: Some("ARM Cortex-M4".to_string()),
        detail: None,
        device_path: Some("/dev/ttyACM0".to_string()),
    }
}

#[test]
fn hardware_table_line() {
    let d = nucleo();
    assert_eq!(
        device_line(&d),
        format!("  {:04x}:{:04x}  {:<20} {:<20} {}", d.vid, d.pid, d.name, "ARM Cortex-M4", "--")
    );
    assert_eq!(devices_found_text(2), "2 device(s) found.");
}

#[test]
fn hardware_info_text() {
    assert_eq!(
        device_info_text(&nucleo()),
        "Device: Nucleo-F401RE\n  VID:PID       0483:374b\n  Architecture  ARM Cortex-M4\n  Serial path   /dev/ttyACM0"
    );
    assert!(device_not_found_text("x").starts_with("Device 'x' not found."));
    assert_eq!(
        version_text("0.5.0"),
        "zeptoclaw 0.5.0\n\nUltra-lightweight personal AI assistant\nhttps://github.com/qhkm/zeptoclaw"
    );
}
