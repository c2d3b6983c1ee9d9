use connect_bluetooth_device::bluetooth::{BluetoothDevice, BluetoothManager};
use connect_bluetooth_device::error::Error;

#[test]
fn test_bluetooth_device_creation() {
    let device = BluetoothDevice {
        name: "Test Device".to_string(),
        address: "AA:BB:CC:DD:EE:FF".to_string(),
        is_connected: false,
        device_type: "Test".to_string(),
    };

    assert_eq!(device.name, "Test Device");
    assert_eq!(device.address, "AA:BB:CC:DD:EE:FF");
    assert!(!device.is_connected);
    assert_eq!(device.device_type, "Test");
}

#[test]
fn test_bluetooth_manager_creation() {
    let _manager = BluetoothManager::new();
    assert!(true);
}

#[test]
fn test_valid_mac_address() {
    let manager = BluetoothManager::new();

    assert!(manager.is_valid_mac_address("AA:BB:CC:DD:EE:FF"));
    assert!(manager.is_valid_mac_address("00:11:22:33:44:55"));
    assert!(manager.is_valid_mac_address("FF:FF:FF:FF:FF:FF"));

    assert!(!manager.is_valid_mac_address("AA:BB:CC:DD:EE"));
    assert!(!manager.is_valid_mac_address("AA:BB:CC:DD:EE:FF:GG"));
    assert!(!manager.is_valid_mac_address("AA-BB-CC-DD-EE-FF"));
    assert!(!manager.is_valid_mac_address("GG:HH:II:JJ:KK:LL"));
    assert!(!manager.is_valid_mac_address(""));
}

#[test]
fn test_connect_device_with_valid_address() {
    let manager = BluetoothManager::new();
    let result = manager.connect_device("AA:BB:CC:DD:EE:FF");
    assert!(result.is_ok());
}

#[test]
fn test_connect_device_with_invalid_address() {
    let manager = BluetoothManager::new();
    let result = manager.connect_device("invalid-address");
    assert!(result.is_err());
}

#[test]
fn test_disconnect_device_with_valid_address() {
    let manager = BluetoothManager::new();
    let result = manager.disconnect_device("AA:BB:CC:DD:EE:FF");
    assert!(result.is_ok());
}

#[test]
fn test_disconnect_device_with_invalid_address() {
    let manager = BluetoothManager::new();
    let result = manager.disconnect_device("invalid-address");
    assert!(result.is_err());
}

#[test]
fn device_new_is_not_connected() {
    let d = BluetoothDevice::new("Pad".to_string(), "AA:BB:CC:DD:EE:FF".to_string(), "Peripheral".to_string());
    assert_eq!(d.name, "Pad");
    assert_eq!(d.address, "AA:BB:CC:DD:EE:FF");
    assert_eq!(d.device_type, "Peripheral");
    assert!(!d.is_connected);
}

#[test]
fn connect_error_names_the_address() {
    let manager = BluetoothManager::default();
    match manager.connect_device("AA:BB:CC:DD:EE") {
        Err(Error::Validation(a)) => assert_eq!(a, "AA:BB:CC:DD:EE"),
        other => panic!("unexpected result {:?}", other),
    }
}

#[test]
fn lower_case_address_is_valid() {
    let manager = BluetoothManager::new();
    assert!(manager.is_valid_mac_address("aa:bb:cc:dd:ee:ff"));
    assert!(manager.connect_device("0a:1B:2c:3D:4e:5F").is_ok());
}
