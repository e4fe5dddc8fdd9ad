use zeptoclaw::devices::parse_udevadm_line;
use zeptoclaw::devices::DeviceAction;
use zeptoclaw::devices::DeviceEvent;
use zeptoclaw::devices::DeviceKind;
use zeptoclaw::devices::DeviceService;

#[test]
fn test_device_event_format_connected() {
    let event = DeviceEvent {
        action: DeviceAction::Connected,
        kind: DeviceKind::Usb,
        vendor: "Acme".into(),
        product: "Sensor v2".into(),
        serial: Some("ABC123".into()),
        capabilities: Some("serial".into()),
    };
    let msg = event.format_message();
    assert!(msg.contains("Connected"));
    assert!(msg.contains("Acme"));
    assert!(msg.contains("Sensor v2"));
    assert!(msg.contains("ABC123"));
    assert!(msg.contains("serial"));
}

#[test]
fn test_device_event_format_disconnected() {
    let event = DeviceEvent {
        action: DeviceAction::Disconnected,
        kind: DeviceKind::Usb,
        vendor: "X".into(),
        product: "Y".into(),
        serial: None,
        capabilities: None,
    };
    let msg = event.format_message();
    assert!(msg.contains("Disconnected"));
    assert!(msg.contains("X"));
    assert!(msg.contains("Y"));
    assert!(!msg.contains("Serial"));
    assert!(!msg.contains("Capabilities"));
}

#[test]
fn test_device_event_format_exact() {
    let event = DeviceEvent {
        action: DeviceAction::Connected,
        kind: DeviceKind::Generic,
        vendor: "Corp".into(),
        product: "Widget".into(),
        serial: Some("SN-42".into()),
        capabilities: Some("hid".into()),
    };
    assert_eq!(
        event.format_message(),
        "\u{1F50C} Device Connected\n\nDevice: Corp Widget\nCapabilities: hid\nSerial: SN-42\n"
    );
}

#[test]
fn test_service_disabled_returns_none() {
    let svc = DeviceService::new(false, true);
    assert!(!svc.enabled);
}

#[test]
fn test_service_enabled_field() {
    let svc = DeviceService::new(true, false);
    assert!(svc.enabled);
    assert!(!svc.monitor_usb);
}

#[test]
fn test_device_action_eq() {
    assert_eq!(DeviceAction::Connected, DeviceAction::Connected);
    assert_ne!(DeviceAction::Connected, DeviceAction::Disconnected);
}

#[test]
fn test_format_message_with_capabilities_and_serial() {
    let event = DeviceEvent {
        action: DeviceAction::Connected,
        kind: DeviceKind::Generic,
        vendor: "Corp".into(),
        product: "Widget".into(),
        serial: Some("SN-42".into()),
        capabilities: Some("hid,mass_storage".into()),
    };
    let msg = event.format_message();
    assert!(msg.contains("hid,mass_storage"));
    assert!(msg.contains("SN-42"));
}

#[test]
fn test_monitor_usb_noop_on_non_linux() {
    assert!(true);
}

#[test]
fn test_parse_add_line() {
    let line = "UDEV  [1234.567890] add      /devices/pci0000:00/... (usb)";
    let event = parse_udevadm_line(line).unwrap();
    assert_eq!(event.action, DeviceAction::Connected);
}

#[test]
fn test_parse_remove_line() {
    let line = "UDEV  [1234.567890] remove   /devices/pci0000:00/... (usb)";
    let event = parse_udevadm_line(line).unwrap();
    assert_eq!(event.action, DeviceAction::Disconnected);
}

#[test]
fn test_parse_bind_returns_none() {
    let line = "UDEV  [1234.567890] bind     /devices/... (usb)";
    assert!(parse_udevadm_line(line).is_none());
}

#[test]
fn test_parse_upper_case_line() {
    let event = parse_udevadm_line("KERNEL[1.0] ADD /devices (usb)").unwrap();
    assert_eq!(event.action, DeviceAction::Connected);
    assert_eq!(event.vendor, "USB Device");
    assert_eq!(event.product, "Unknown");
    assert!(event.serial.is_none());
}
