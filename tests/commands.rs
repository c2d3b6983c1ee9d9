use connect_bluetooth_device::bluetooth::BluetoothDevice;
use connect_bluetooth_device::cli::{connected_devices, run_command, Cli, Commands, Plan};
use connect_bluetooth_device::config::AppConfig;
use connect_bluetooth_device::error::Error;

fn run(command: Option<Commands>, config: &mut AppConfig, exists: bool) -> Plan {
    run_command(Cli { command }, config, exists)
}

#[test]
fn register_without_name_uses_address_prefix() {
    let mut config = AppConfig::default();
    let plan = run(
        Some(Commands::Register { address: "AA:BB:CC:DD:EE:FF".to_string(), name: None }),
        &mut config,
        false,
    );
    match &plan {
        Plan::Registered { name, address } => {
            assert_eq!(name, "Device-AA:BB:CC");
            assert_eq!(address, "AA:BB:CC:DD:EE:FF");
        }
        other => panic!("unexpected plan {:?}", other),
    }
    assert!(plan.needs_save());
    assert_eq!(config.registered_devices.len(), 1);
    assert_eq!(config.registered_devices[0].name, "Device-AA:BB:CC");
    assert_eq!(config.registered_devices[0].device_type, "Unknown");
}

#[test]
fn register_with_invalid_address_is_rejected() {
    let mut config = AppConfig::default();
    let plan = run(
        Some(Commands::Register { address: "AA:BB".to_string(), name: Some("X".to_string()) }),
        &mut config,
        true,
    );
    match &plan {
        Plan::Rejected(Error::Validation(a)) => assert_eq!(a, "AA:BB"),
        other => panic!("unexpected plan {:?}", other),
    }
    assert!(!plan.needs_save());
    assert!(config.registered_devices.is_empty());
}

#[test]
fn unregister_without_config_does_nothing() {
    let mut config = AppConfig::default();
    let plan = run(Some(Commands::Unregister { address: "AA:BB:CC:DD:EE:FF".to_string() }), &mut config, false);
    assert!(matches!(plan, Plan::NoConfig));
}

#[test]
fn unregister_reports_presence() {
    let mut config = AppConfig::default();
    config.register_device("A".to_string(), "AA:BB:CC:DD:EE:FF".to_string(), "T".to_string());
    let plan = run(Some(Commands::Unregister { address: "11:22:33:44:55:66".to_string() }), &mut config, true);
    assert!(matches!(plan, Plan::NotRegistered(_)));
    assert_eq!(config.registered_devices.len(), 1);
    let plan = run(Some(Commands::Unregister { address: "AA:BB:CC:DD:EE:FF".to_string() }), &mut config, true);
    assert!(matches!(plan, Plan::Unregistered(_)));
    assert!(plan.needs_save());
    assert!(config.registered_devices.is_empty());
}

#[test]
fn connect_falls_back_to_default_device() {
    let mut config = AppConfig::default();
    let plan = run(Some(Commands::Connect { address: None }), &mut config, true);
    assert!(matches!(plan, Plan::NoDefaultDevice));
    config.set_default_device(Some("AA:BB:CC:DD:EE:FF".to_string()));
    match run(Some(Commands::Connect { address: None }), &mut config, true) {
        Plan::Connect { address, from_default } => {
            assert_eq!(address, "AA:BB:CC:DD:EE:FF");
            assert!(from_default);
        }
        other => panic!("unexpected plan {:?}", other),
    }
    match run(Some(Commands::Connect { address: Some("11:22:33:44:55:66".to_string()) }), &mut config, true) {
        Plan::Connect { address, from_default } => {
            assert_eq!(address, "11:22:33:44:55:66");
            assert!(!from_default);
        }
        other => panic!("unexpected plan {:?}", other),
    }
}

#[test]
fn set_default_reports_whether_registered() {
    let mut config = AppConfig::default();
    config.register_device("A".to_string(), "AA:BB:CC:DD:EE:FF".to_string(), "T".to_string());
    match run(Some(Commands::SetDefault { address: "11:22:33:44:55:66".to_string() }), &mut config, true) {
        Plan::DefaultSet { address, was_registered } => {
            assert_eq!(address, "11:22:33:44:55:66");
            assert!(!was_registered);
        }
        other => panic!("unexpected plan {:?}", other),
    }
    assert_eq!(config.default_device, Some("11:22:33:44:55:66".to_string()));
    match run(Some(Commands::SetDefault { address: "AA:BB:CC:DD:EE:FF".to_string() }), &mut config, true) {
        Plan::DefaultSet { was_registered, .. } => assert!(was_registered),
        other => panic!("unexpected plan {:?}", other),
    }
}

#[test]
fn default_action_follows_preferences() {
    let mut config = AppConfig::default();
    assert!(matches!(run(None, &mut config, false), Plan::NoConfig));
    assert!(matches!(run(None, &mut config, true), Plan::AutoConnectDisabled));
    config.auto_connect = true;
    assert!(matches!(run(None, &mut config, true), Plan::ChooseDefault));
    config.set_default_device(Some("AA:BB:CC:DD:EE:FF".to_string()));
    match run(None, &mut config, true) {
        Plan::AutoConnect(a) => assert_eq!(a, "AA:BB:CC:DD:EE:FF"),
        other => panic!("unexpected plan {:?}", other),
    }
}

#[test]
fn other_commands_leave_registry_alone() {
    let mut config = AppConfig::default();
    assert!(matches!(run(Some(Commands::List { registered: true }), &mut config, true), Plan::ListRegistered));
    assert!(matches!(run(Some(Commands::List { registered: false }), &mut config, true), Plan::ListAvailable));
    assert!(matches!(run(Some(Commands::Status), &mut config, true), Plan::ShowStatus));
    assert!(matches!(run(Some(Commands::Status), &mut config, false), Plan::NoConfig));
    assert!(matches!(run(Some(Commands::Disconnect { address: None }), &mut config, true), Plan::DisconnectAll));
    match run(Some(Commands::Disconnect { address: Some("AA:BB:CC:DD:EE:FF".to_string()) }), &mut config, true) {
        Plan::Disconnect(a) => assert_eq!(a, "AA:BB:CC:DD:EE:FF"),
        other => panic!("unexpected plan {:?}", other),
    }
    assert!(config.registered_devices.is_empty());
    assert!(config.default_device.is_none());
}

#[test]
fn connected_devices_keeps_connected_in_order() {
    let mut a = BluetoothDevice::new("A".to_string(), "AA:AA:AA:AA:AA:AA".to_string(), "Unknown".to_string());
    let b = BluetoothDevice::new("B".to_string(), "BB:BB:BB:BB:BB:BB".to_string(), "Unknown".to_string());
    let mut c = BluetoothDevice::new("C".to_string(), "CC:CC:CC:CC:CC:CC".to_string(), "Unknown".to_string());
    a.is_connected = true;
    c.is_connected = true;
    let kept = connected_devices(vec![a, b, c]);
    let names: Vec<&str> = kept.iter().map(|d| d.name.as_str()).collect();
    assert_eq!(names, vec!["A", "C"]);
    assert!(connected_devices(Vec::new()).is_empty());
}
