use connect_bluetooth_device::bluetooth::BluetoothManager;

const ROOT: &str = "HKEY_LOCAL_MACHINE\\SYSTEM\\CurrentControlSet\\Services\\BTHPORT\\Parameters\\Devices";

fn block(key: &str) -> String {
    format!("{}\\{}", ROOT, key)
}

#[test]
fn parse_empty_dump() {
    let manager = BluetoothManager::new();
    assert!(manager.parse_bluetooth_registry("").is_empty());
}

#[test]
fn parse_single_trailing_block() {
    let manager = BluetoothManager::new();
    let dump = format!("{}\n    FriendlyName    REG_SZ    My Headphones", block("001a7dda7113"));
    let devices = manager.parse_bluetooth_registry(&dump);
    assert_eq!(devices.len(), 1);
    assert_eq!(devices[0].name, "My Headphones");
    assert_eq!(devices[0].address, "00:1A:7D:DA:71:13");
    assert!(!devices[0].is_connected);
    assert_eq!(devices[0].device_type, "Audio/Video");
}

#[test]
fn parse_drops_block_with_short_key() {
    let manager = BluetoothManager::new();
    let dump = [
        block("aabbccddeeff"),
        "    FriendlyName    REG_SZ    Mouse One".to_string(),
        block("aabbcc"),
        "    FriendlyName    REG_SZ    Broken".to_string(),
        "    LastConnected    REG_QWORD    0x1".to_string(),
        block("112233445566"),
        "    FriendlyName    REG_SZ    Phone Two".to_string(),
        "    LastConnected    REG_QWORD    0x1d9".to_string(),
    ]
    .join("\r\n");
    let devices = manager.parse_bluetooth_registry(&dump);
    assert_eq!(devices.len(), 2);
    assert_eq!(devices[0].name, "Mouse One");
    assert_eq!(devices[0].address, "AA:BB:CC:DD:EE:FF");
    assert!(!devices[0].is_connected);
    assert_eq!(devices[0].device_type, "Peripheral");
    assert_eq!(devices[1].name, "Phone Two");
    assert_eq!(devices[1].address, "11:22:33:44:55:66");
    assert!(devices[1].is_connected);
    assert_eq!(devices[1].device_type, "Phone");
}

#[test]
fn parse_names_unnamed_device_after_address() {
    let manager = BluetoothManager::new();
    let dump = format!("{}\n{}\n", ROOT, block("a1b2c3d4e5f6"));
    let devices = manager.parse_bluetooth_registry(&dump);
    assert_eq!(devices.len(), 1);
    assert_eq!(devices[0].name, "Bluetooth Device A1:B2:C3");
    assert_eq!(devices[0].device_type, "Unknown");
}

#[test]
fn parse_later_name_overrides_earlier_and_blank_is_ignored() {
    let manager = BluetoothManager::new();
    let dump = [
        block("aabbccddeeff"),
        "FriendlyName REG_SZ First".to_string(),
        "FriendlyName REG_SZ Second Speaker".to_string(),
        "FriendlyName REG_SZ    ".to_string(),
    ]
    .join("\n");
    let devices = manager.parse_bluetooth_registry(&dump);
    assert_eq!(devices.len(), 1);
    assert_eq!(devices[0].name, "Second Speaker");
    assert_eq!(devices[0].device_type, "Audio/Video");
}

#[test]
fn parse_sub_key_closes_block() {
    let manager = BluetoothManager::new();
    let dump = [
        block("aabbccddeeff"),
        "    FriendlyName    REG_SZ    Keyboard".to_string(),
        block("aabbccddeeff\\CachedServices"),
        "    FriendlyName    REG_SZ    Ignored".to_string(),
    ]
    .join("\n");
    let devices = manager.parse_bluetooth_registry(&dump);
    assert_eq!(devices.len(), 1);
    assert_eq!(devices[0].name, "Keyboard");
    assert_eq!(devices[0].device_type, "Peripheral");
}

#[test]
fn parse_ignores_lines_before_first_block() {
    let manager = BluetoothManager::new();
    let dump = [
        "    FriendlyName    REG_SZ    Stray".to_string(),
        "    LastConnected    REG_QWORD    0x2".to_string(),
        block("010203040506"),
    ]
    .join("\n");
    let devices = manager.parse_bluetooth_registry(&dump);
    assert_eq!(devices.len(), 1);
    assert_eq!(devices[0].name, "Bluetooth Device 01:02:03");
    assert!(!devices[0].is_connected);
}
