use rustcooling::hid::{HidDeviceManager, PRODUCT_ID, VENDOR_ID};
use rustcooling::protocol::REPORT_SIZE;

#[test]
fn test_manager_initial_state() {
    let manager = HidDeviceManager::new();
    assert!(!manager.is_connected());
}

#[test]
fn test_manager_close() {
    let mut manager = HidDeviceManager::new();
    manager.close();
    assert!(!manager.is_connected());
}

#[test]
fn test_send_raw_disconnected() {
    let manager = HidDeviceManager::new();
    let frame = [0u8; REPORT_SIZE];
    let result = manager.send_raw(&frame);
    assert!(result.is_err());
    assert_eq!(result.unwrap_err(), "Device is not opened");
}

#[test]
fn open_picks_the_first_cooler() {
    let manager = HidDeviceManager::new();
    let devices = [(0x046d, 0xc52b), (VENDOR_ID, PRODUCT_ID), (VENDOR_ID, PRODUCT_ID)];
    assert_eq!(manager.open_device(&devices), Ok(1));
    let others = [(VENDOR_ID, 0x0101), (0x0100, PRODUCT_ID)];
    assert_eq!(
        manager.open_device(&others),
        Err("Device not found (VID: 0x3402, PID: 0x0100)".to_string())
    );
    assert_eq!(
        manager.open_device(&[]),
        Err("Device not found (VID: 0x3402, PID: 0x0100)".to_string())
    );
}

#[test]
fn open_outcome_decides_the_connection() {
    let mut manager = HidDeviceManager::new();
    let failed = manager.record_open(Err("permission denied".to_string()));
    assert_eq!(
        failed,
        Err("Failed to open device (VID: 0x3402, PID: 0x0100): permission denied".to_string())
    );
    assert!(!manager.is_connected());
    assert_eq!(manager.record_open(Ok(())), Ok(()));
    assert!(manager.is_connected());
}

#[test]
fn connected_send_hands_out_the_frame() {
    let mut manager = HidDeviceManager::new();
    manager.record_open(Ok(())).unwrap();
    let frame = [7u8; REPORT_SIZE];
    assert_eq!(manager.send_raw(&frame), Ok(&frame));
}

#[test]
fn failed_write_disconnects() {
    let mut manager = HidDeviceManager::new();
    manager.record_open(Ok(())).unwrap();
    assert_eq!(manager.record_write(Ok(())), Ok(()));
    assert!(manager.is_connected());
    assert_eq!(
        manager.record_write(Err("broken pipe".to_string())),
        Err("HID write error: broken pipe".to_string())
    );
    assert!(!manager.is_connected());
    let frame = [0u8; REPORT_SIZE];
    assert_eq!(manager.send_raw(&frame).unwrap_err(), "Device is not opened");
}

#[test]
fn init_failure_message() {
    assert_eq!(
        rustcooling::hid::init_failed_error("no backend"),
        "Failed to initialize HidApi: no backend"
    );
}
