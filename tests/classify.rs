use connect_bluetooth_device::bluetooth::BluetoothManager;
use connect_bluetooth_device::classify::{classify, classify_lowered, DeviceType};

#[test]
fn classifier_precedence() {
    assert_eq!(classify("Phone Headphones"), DeviceType::AudioVideo);
    assert_eq!(classify("Wireless Mouse"), DeviceType::Peripheral);
    assert_eq!(classify("Random Widget"), DeviceType::Unknown);
}

#[test]
fn classifier_ignores_case() {
    assert_eq!(classify("WIRELESS MOUSE"), DeviceType::Peripheral);
    assert_eq!(classify("KeyBoard K380"), DeviceType::Peripheral);
    assert_eq!(classify("Mobile Hotspot"), DeviceType::Phone);
    assert_eq!(classify("HL7BT"), DeviceType::AudioVideo);
}

#[test]
fn classifier_keyword_groups() {
    assert_eq!(classify("Mouse Speaker"), DeviceType::Peripheral);
    assert_eq!(classify("Smart Speaker"), DeviceType::AudioVideo);
    assert_eq!(classify("Car Audio"), DeviceType::AudioVideo);
    assert_eq!(classify("My iPhone"), DeviceType::Phone);
    assert_eq!(classify(""), DeviceType::Unknown);
}

#[test]
fn lowered_classifier_is_case_sensitive() {
    assert_eq!(classify_lowered("wireless mouse"), DeviceType::Peripheral);
    assert_eq!(classify_lowered("WIRELESS MOUSE"), DeviceType::Unknown);
}

#[test]
fn labels() {
    assert_eq!(DeviceType::Peripheral.label(), "Peripheral");
    assert_eq!(DeviceType::AudioVideo.label(), "Audio/Video");
    assert_eq!(DeviceType::Phone.label(), "Phone");
    assert_eq!(DeviceType::Unknown.label(), "Unknown");
}

#[test]
fn manager_names_device_type() {
    let manager = BluetoothManager::new();
    assert_eq!(manager.determine_device_type_from_name("Phone Headphones"), "Audio/Video");
    assert_eq!(manager.determine_device_type_from_name("Galaxy Phone"), "Phone");
    assert_eq!(manager.determine_device_type_from_name("Thing"), "Unknown");
}
