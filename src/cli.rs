//! The tool's commands and the decision each one takes on the registry.
//! Reading the arguments, loading and saving the registry, talking to
//! devices and printing are left to the caller, which carries out the
//! returned `Plan`.
use vstd::prelude::*;
use crate::bluetooth::{device_views, BluetoothDevice, BluetoothManager, DeviceView};
use crate::classify::DeviceType;
use crate::config::{has_address, kept_when_removing, registered, AppConfig, AppConfigView};
use crate::error::Error;
use crate::mac::valid_mac;
use crate::text::{chars_of, opt_view, push_range};

verus! {

/// The parsed command line.
pub struct Cli {
    pub command: Option<Commands>,
}

/// The commands of the tool.
pub enum Commands {
    /// Lists devices; only the registered ones when `registered` is set.
    List { registered: bool },
    /// Registers a device, named `name` or after its address.
    Register { address: String, name: Option<String> },
    /// Removes a device from the registry.
    Unregister { address: String },
    /// Shows the registry and the preferences.
    Status,
    /// Connects to a device, or to the default device.
    Connect { address: Option<String> },
    /// Disconnects a device, or every connected device.
    Disconnect { address: Option<String> },
    /// Makes a device the default one.
    SetDefault { address: String },
}

/// What the caller does after a command was decided.
#[derive(Debug)]
pub enum Plan {
    /// The registry file does not exist; nothing to do.
    NoConfig,
    /// Show the registered devices.
    ListRegistered,
    /// Scan for devices and show them beside the registered ones.
    ListAvailable,
    /// The command was refused.
    Rejected(Error),
    /// A device was registered under `name`; save the registry.
    Registered { name: String, address: String },
    /// The device was removed; save the registry.
    Unregistered(String),
    /// The device was not registered.
    NotRegistered(String),
    /// Show the registry and the preferences.
    ShowStatus,
    /// Connect to `address`, which came from the default device when
    /// `from_default` is set.
    Connect { address: String, from_default: bool },
    /// No address was given and no default device is set.
    NoDefaultDevice,
    /// Disconnect from `address`.
    Disconnect(String),
    /// Disconnect every connected device.
    DisconnectAll,
    /// The default device was set; save the registry.
    DefaultSet { address: String, was_registered: bool },
    /// Automatic connection is switched off; show how to use the tool.
    AutoConnectDisabled,
    /// Connect to the default device.
    AutoConnect(String),
    /// Automatic connection is on but no default device is set.
    ChooseDefault,
}

impl Plan {
    /// Whether the registry changed and must be saved.
    pub open spec fn spec_needs_save(&self) -> bool {
        ||| self is Registered
        ||| self is Unregistered
        ||| self is DefaultSet
    }

    /// Whether the registry changed and must be saved.
    pub fn needs_save(&self) -> (r: bool)
        ensures
            r == self.spec_needs_save(),
    {
        match self {
            Plan::Registered { .. } | Plan::Unregistered(_) | Plan::DefaultSet { .. } => true,
            _ => false,
        }
    }
}

/// The start of the name given to a device registered without one.
pub const UNNAMED_REGISTERED: &'static str = "Device-";

/// The name a device is registered under: the given one, or one made from
/// the first eight characters of its address.
pub open spec fn registered_name(name: Option<Seq<char>>, address: Seq<char>) -> Seq<char> {
    match name {
        Some(n) => n,
        None => UNNAMED_REGISTERED@ + address.take(8),
    }
}

fn name_for_registration(name: Option<String>, address: &String) -> (r: String)
    requires
        address@.len() >= 8,
    ensures
        r@ == registered_name(opt_view(name), address@),
{
    match name {
        Some(n) => n,
        None => {
            let mut r = UNNAMED_REGISTERED.to_string();
            let a = chars_of(address.as_str());
            push_range(&mut r, &a, 0, 8);
            assert(a@.subrange(0, 8) =~= address@.take(8));
            r
        },
    }
}

/// Decides `cli`'s command on `config`, the registry as loaded
/// (`config_exists` false when there was no file and `config` holds the
/// defaults). The registry is changed as the command asks, and the returned
/// plan says what remains to be done.
pub fn run_command(cli: Cli, config: &mut AppConfig, config_exists: bool) -> (r: Plan)
    ensures
        r.spec_needs_save() || final(config)@ == old(config)@,
        match cli.command {
            Some(Commands::List { registered }) => if registered {
                r is ListRegistered
            } else {
                r is ListAvailable
            },
            Some(Commands::Register { address, name }) => if valid_mac(address@) {
                &&& final(config)@ == (AppConfigView {
                    registered_devices: registered(
                        old(config)@.registered_devices,
                        registered_name(opt_view(name), address@),
                        address@,
                        DeviceType::Unknown.spec_label(),
                    ),
                    ..old(config)@
                })
                &&& r matches Plan::Registered { name: n, address: a }
                &&& n@ == registered_name(opt_view(name), address@)
                &&& a@ == address@
            } else {
                &&& r matches Plan::Rejected(Error::Validation(a))
                &&& a@ == address@
            },
            Some(Commands::Unregister { address }) => if !config_exists {
                r is NoConfig
            } else if has_address(old(config)@.registered_devices, address@) {
                &&& final(config)@ == (AppConfigView {
                    registered_devices: old(config)@.registered_devices.filter(
                        kept_when_removing(address@),
                    ),
                    ..old(config)@
                })
                &&& r matches Plan::Unregistered(a)
                &&& a@ == address@
            } else {
                &&& r matches Plan::NotRegistered(a)
                &&& a@ == address@
            },
            Some(Commands::Status) => if config_exists {
                r is ShowStatus
            } else {
                r is NoConfig
            },
            Some(Commands::Connect { address }) => match address {
                Some(given) => {
                    &&& r matches Plan::Connect { address: a, from_default }
                    &&& a@ == given@
                    &&& !from_default
                },
                None => match old(config)@.default_device {
                    Some(d) => {
                        &&& r matches Plan::Connect { address: a, from_default }
                        &&& a@ == d
                        &&& from_default
                    },
                    None => r is NoDefaultDevice,
                },
            },
            Some(Commands::Disconnect { address }) => match address {
                Some(given) => {
                    &&& r matches Plan::Disconnect(a)
                    &&& a@ == given@
                },
                None => r is DisconnectAll,
            },
            Some(Commands::SetDefault { address }) => {
                &&& final(config)@ == (AppConfigView {
                    default_device: Some(address@),
                    ..old(config)@
                })
                &&& r matches Plan::DefaultSet { address: a, was_registered }
                &&& a@ == address@
                &&& was_registered == has_address(old(config)@.registered_devices, address@)
            },
            None => if !config_exists {
                r is NoConfig
            } else if !old(config)@.auto_connect {
                r is AutoConnectDisabled
            } else {
                match old(config)@.default_device {
                    Some(d) => {
                        &&& r matches Plan::AutoConnect(a)
                        &&& a@ == d
                    },
                    None => r is ChooseDefault,
                }
            },
        },
{
    match cli.command {
        Some(Commands::List { registered }) => {
            if registered {
                Plan::ListRegistered
            } else {
                Plan::ListAvailable
            }
        },
        Some(Commands::Register { address, name }) => {
            let manager = BluetoothManager::new();
            if !manager.is_valid_mac_address(address.as_str()) {
                return Plan::Rejected(Error::Validation(address));
            }
            let device_name = name_for_registration(name, &address);
            let shown_name = device_name.clone();
            let shown_address = address.clone();
            config.register_device(device_name, address, DeviceType::Unknown.label());
            Plan::Registered { name: shown_name, address: shown_address }
        },
        Some(Commands::Unregister { address }) => {
            if !config_exists {
                return Plan::NoConfig;
            }
            if config.unregister_device(address.as_str()) {
                Plan::Unregistered(address)
            } else {
                proof {
                    crate::config::lemma_unregister_absent(old(config)@, address@);
                }
                Plan::NotRegistered(address)
            }
        },
        Some(Commands::Status) => {
            if config_exists {
                Plan::ShowStatus
            } else {
                Plan::NoConfig
            }
        },
        Some(Commands::Connect { address }) => {
            match address {
                Some(a) => Plan::Connect { address: a, from_default: false },
                None => match &config.default_device {
                    Some(d) => Plan::Connect { address: d.clone(), from_default: true },
                    None => Plan::NoDefaultDevice,
                },
            }
        },
        Some(Commands::Disconnect { address }) => {
            match address {
                Some(a) => Plan::Disconnect(a),
                None => Plan::DisconnectAll,
            }
        },
        Some(Commands::SetDefault { address }) => {
            let was_registered = config.get_registered_device(address.as_str()).is_some();
            let shown = address.clone();
            config.set_default_device(Some(address));
            Plan::DefaultSet { address: shown, was_registered }
        },
        None => {
            if !config_exists {
                Plan::NoConfig
            } else if !config.auto_connect {
                Plan::AutoConnectDisabled
            } else {
                match &config.default_device {
                    Some(d) => Plan::AutoConnect(d.clone()),
                    None => Plan::ChooseDefault,
                }
            }
        },
    }
}

/// The devices of `devices` that are connected, in their order.
pub fn connected_devices(devices: Vec<BluetoothDevice>) -> (r: Vec<BluetoothDevice>)
    ensures
        device_views(r@) == device_views(devices@).filter(|d: DeviceView| d.is_connected),
{
    let ghost all = device_views(devices@);
    let ghost keep = |d: DeviceView| d.is_connected;
    let mut kept: Vec<BluetoothDevice> = Vec::new();
    assert(device_views(kept@) =~= Seq::<DeviceView>::empty());
    assert(all.take(0) =~= Seq::<DeviceView>::empty());
    for d in it: devices
        invariant
            it.seq() == devices@,
            all == device_views(devices@),
            keep == (|d: DeviceView| d.is_connected),
            device_views(kept@) == all.take(it.index() as int).filter(keep),
    {
        let ghost k = it.index() as int;
        let ghost dv = d@;
        proof {
            reveal(Seq::filter);
        }
        assert(all.take(k + 1).drop_last() =~= all.take(k));
        assert(all.take(k + 1).last() == dv);
        if d.is_connected {
            kept.push(d);
            assert(device_views(kept@) =~= all.take(k).filter(keep).push(dv));
        }
    }
    assert(all.take(all.len() as int) =~= all);
    kept
}

} // verus!
