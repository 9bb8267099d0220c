use led_matrix::device::led_matrix::LedMatrix;
use led_matrix::device::{
    discover_devices, is_led_matrix_device, SerialPortInfo, SerialPortType, UsbPortInfo,
    FRAMEWORK_VID, LED_MATRIX_PID,
};
use led_matrix::error::{IoFailure, LedMatrixError, SerialError, SerialErrorKind};

fn usb(name: &str, vid: u16, pid: u16) -> SerialPortInfo {
    SerialPortInfo {
        port_name: name.to_string(),
        port_type: SerialPortType::UsbPort(UsbPortInfo { vid, pid }),
    }
}

fn other(name: &str, port_type: SerialPortType) -> SerialPortInfo {
    SerialPortInfo { port_name: name.to_string(), port_type }
}

fn names(devices: &[LedMatrix]) -> Vec<String> {
    devices.iter().map(|device| device.port_name().to_string()).collect()
}

#[test]
fn identity_constants() {
    assert_eq!(FRAMEWORK_VID, 0x32AC);
    assert_eq!(LED_MATRIX_PID, 0x0020);
}

#[test]
fn only_the_exact_identity_is_a_panel() {
    assert!(is_led_matrix_device(&UsbPortInfo { vid: 0x32AC, pid: 0x0020 }));
    assert!(!is_led_matrix_device(&UsbPortInfo { vid: 0x32AC, pid: 0x0021 }));
    assert!(!is_led_matrix_device(&UsbPortInfo { vid: 0x32AD, pid: 0x0020 }));
    assert!(!is_led_matrix_device(&UsbPortInfo { vid: 0x0020, pid: 0x32AC }));
    assert!(!is_led_matrix_device(&UsbPortInfo { vid: 0, pid: 0 }));
}

#[test]
fn no_ports_at_all_is_no_devices_found() {
    assert_eq!(discover_devices(Ok(Vec::new())), Err(LedMatrixError::NoDevicesFound));
}

#[test]
fn no_matching_port_is_no_devices_found() {
    let ports = vec![
        usb("/dev/ttyUSB0", 0x0403, 0x6001),
        usb("/dev/ttyUSB1", 0x32AC, 0x0012),
        usb("/dev/ttyUSB2", 0x1234, 0x0020),
        other("/dev/ttyS0", SerialPortType::PciPort),
        other("/dev/rfcomm0", SerialPortType::BluetoothPort),
        other("/dev/ttyS1", SerialPortType::Unknown),
    ];
    assert_eq!(discover_devices(Ok(ports)), Err(LedMatrixError::NoDevicesFound));
}

#[test]
fn mixed_list_yields_exactly_the_panels_in_order() {
    let ports = vec![
        other("/dev/ttyS0", SerialPortType::PciPort),
        usb("/dev/ttyACM0", 0x32AC, 0x0020),
        usb("/dev/ttyUSB0", 0x0403, 0x6001),
        other("/dev/rfcomm0", SerialPortType::BluetoothPort),
        usb("/dev/ttyACM1", 0x32AC, 0x0020),
        usb("/dev/ttyACM2", 0x32AC, 0x0021),
        other("/dev/ttyACM3", SerialPortType::Unknown),
    ];
    let devices = discover_devices(Ok(ports)).expect("two panels are attached");
    assert_eq!(names(&devices), vec!["/dev/ttyACM0", "/dev/ttyACM1"]);
}

#[test]
fn a_single_panel_is_found() {
    let devices = discover_devices(Ok(vec![usb("COM4", 0x32AC, 0x0020)])).expect("one panel");
    assert_eq!(devices, vec![LedMatrix::new("COM4".to_string())]);
}

#[test]
fn panels_with_the_same_name_are_all_kept() {
    let ports = vec![usb("COM4", 0x32AC, 0x0020), usb("COM4", 0x32AC, 0x0020)];
    let devices = discover_devices(Ok(ports)).expect("two panels");
    assert_eq!(names(&devices), vec!["COM4", "COM4"]);
}

#[test]
fn a_failed_enumeration_is_a_transport_error() {
    let cause = SerialError {
        kind: SerialErrorKind::Unknown,
        description: "enumeration failed".to_string(),
    };
    assert_eq!(discover_devices(Err(cause.clone())), Err(LedMatrixError::SerialPort(cause)));
    let denied = SerialError {
        kind: SerialErrorKind::Io(IoFailure::Other),
        description: "sysfs".to_string(),
    };
    let found = discover_devices(Err(denied.clone()));
    assert_ne!(found, Err(LedMatrixError::NoDevicesFound));
    assert_eq!(found, Err(LedMatrixError::SerialPort(denied)));
}
