//! The persisted registry: registered devices, the default device and the
//! connection preferences, with upsert, removal, lookup and default
//! selection. Reading and writing the stored document is left to callers.
use vstd::prelude::*;
use crate::text::opt_view;

verus! {

/// A device the user registered. Its address is its key in the registry.
#[derive(Debug, Clone)]
pub struct RegisteredDevice {
    pub name: String,
    pub address: String,
    pub device_type: String,
    pub last_connected: Option<String>,
}

/// The value of a `RegisteredDevice`.
pub struct RegisteredDeviceView {
    pub name: Seq<char>,
    pub address: Seq<char>,
    pub device_type: Seq<char>,
    pub last_connected: Option<Seq<char>>,
}

impl View for RegisteredDevice {
    type V = RegisteredDeviceView;

    open spec fn view(&self) -> RegisteredDeviceView {
        RegisteredDeviceView {
            name: self.name@,
            address: self.address@,
            device_type: self.device_type@,
            last_connected: opt_view(self.last_connected),
        }
    }
}

/// The values of a sequence of registered devices.
pub open spec fn registered_views(s: Seq<RegisteredDevice>) -> Seq<RegisteredDeviceView> {
    s.map_values(|d: RegisteredDevice| d@)
}

/// The registry and the user's preferences.
#[derive(Debug, Clone)]
pub struct AppConfig {
    pub registered_devices: Vec<RegisteredDevice>,
    pub default_device: Option<String>,
    pub auto_connect: bool,
    pub connection_timeout: u32,
}

/// The value of an `AppConfig`.
pub struct AppConfigView {
    pub registered_devices: Seq<RegisteredDeviceView>,
    pub default_device: Option<Seq<char>>,
    pub auto_connect: bool,
    pub connection_timeout: u32,
}

impl View for AppConfig {
    type V = AppConfigView;

    open spec fn view(&self) -> AppConfigView {
        AppConfigView {
            registered_devices: registered_views(self.registered_devices@),
            default_device: opt_view(self.default_device),
            auto_connect: self.auto_connect,
            connection_timeout: self.connection_timeout,
        }
    }
}

/// The connection timeout, in seconds, of a registry that does not set one.
pub const DEFAULT_CONNECTION_TIMEOUT: u32 = 30;

/// No two entries share an address.
pub open spec fn addresses_unique(s: Seq<RegisteredDeviceView>) -> bool {
    forall|i: int, j: int|
        0 <= i < s.len() && 0 <= j < s.len() && i != j ==> s[i].address != s[j].address
}

impl AppConfigView {
    /// The registry holds at most one entry per address.
    pub open spec fn wf(self) -> bool {
        addresses_unique(self.registered_devices)
    }
}

/// Some entry of `s` has address `a`.
pub open spec fn has_address(s: Seq<RegisteredDeviceView>, a: Seq<char>) -> bool {
    exists|i: int| 0 <= i < s.len() && s[i].address == a
}

/// `i` is the first index of an entry of `s` with address `a`.
pub open spec fn is_first_with_address(s: Seq<RegisteredDeviceView>, a: Seq<char>, i: int) -> bool {
    &&& 0 <= i < s.len()
    &&& s[i].address == a
    &&& forall|j: int| 0 <= j < i ==> s[j].address != a
}

/// The first index of an entry of `s` with address `a`.
pub open spec fn first_with_address(s: Seq<RegisteredDeviceView>, a: Seq<char>) -> int {
    choose|i: int| is_first_with_address(s, a, i)
}

/// There is one first index.
pub proof fn lemma_first_with_address(s: Seq<RegisteredDeviceView>, a: Seq<char>, i: int)
    requires
        is_first_with_address(s, a, i),
    ensures
        first_with_address(s, a) == i,
{
    let k = first_with_address(s, a);
    assert(is_first_with_address(s, a, k));
    if k < i {
        assert(s[k].address != a);
    }
    if i < k {
        assert(s[i].address != a);
    }
}

/// The entries after `register_device(name, address, device_type)`: the
/// first entry with that address gets the new name and type and keeps its
/// place and its last connection time; without one, a new entry is added at
/// the end.
pub open spec fn registered(
    s: Seq<RegisteredDeviceView>,
    name: Seq<char>,
    address: Seq<char>,
    device_type: Seq<char>,
) -> Seq<RegisteredDeviceView> {
    if has_address(s, address) {
        let i = first_with_address(s, address);
        s.update(i, RegisteredDeviceView { name, device_type, ..s[i] })
    } else {
        s.push(RegisteredDeviceView { name, address, device_type, last_connected: None })
    }
}

/// Whether an entry is kept when `address` is unregistered.
pub open spec fn kept_when_removing(address: Seq<char>) -> spec_fn(RegisteredDeviceView) -> bool {
    |d: RegisteredDeviceView| d.address != address
}

/// After registering `address`, a registry with unique addresses still has
/// unique addresses, and the first (and only) entry with `address` carries
/// the given name and type.
pub proof fn lemma_registered(
    s: Seq<RegisteredDeviceView>,
    name: Seq<char>,
    address: Seq<char>,
    device_type: Seq<char>,
) -> (i: int)
    requires
        addresses_unique(s),
    ensures
        addresses_unique(registered(s, name, address, device_type)),
        is_first_with_address(registered(s, name, address, device_type), address, i),
        registered(s, name, address, device_type)[i].name == name,
        registered(s, name, address, device_type)[i].device_type == device_type,
{
    let r = registered(s, name, address, device_type);
    if has_address(s, address) {
        let i = choose|i: int| 0 <= i < s.len() && s[i].address == address;
        assert(is_first_with_address(s, address, i));
        lemma_first_with_address(s, address, i);
        assert(is_first_with_address(r, address, i));
        i
    } else {
        assert(is_first_with_address(r, address, s.len() as int));
        s.len() as int
    }
}

/// Registering the same address twice leaves exactly one entry for it,
/// with the name and type of the second call.
pub proof fn lemma_register_twice(
    c: AppConfigView,
    name1: Seq<char>,
    name2: Seq<char>,
    address: Seq<char>,
    type1: Seq<char>,
    type2: Seq<char>,
)
    requires
        c.wf(),
    ensures
        ({
            let s = registered(
                registered(c.registered_devices, name1, address, type1),
                name2,
                address,
                type2,
            );
            &&& addresses_unique(s)
            &&& exists|i: int|
                0 <= i < s.len() && s[i].address == address && s[i].name == name2
                    && s[i].device_type == type2 && forall|j: int|
                    0 <= j < s.len() && j != i ==> s[j].address != address
        }),
{
    let s1 = registered(c.registered_devices, name1, address, type1);
    let i = lemma_registered(c.registered_devices, name1, address, type1);
    let j = lemma_registered(s1, name2, address, type2);
    let s = registered(s1, name2, address, type2);
    assert(0 <= j < s.len() && s[j].address == address && s[j].name == name2 && s[j].device_type
        == type2);
}

/// Registering is idempotent: a second identical call changes nothing.
pub proof fn lemma_register_idempotent(
    c: AppConfigView,
    name: Seq<char>,
    address: Seq<char>,
    device_type: Seq<char>,
)
    requires
        c.wf(),
    ensures
        registered(registered(c.registered_devices, name, address, device_type), name, address, device_type)
            == registered(c.registered_devices, name, address, device_type),
{
    let s1 = registered(c.registered_devices, name, address, device_type);
    let i = lemma_registered(c.registered_devices, name, address, device_type);
    lemma_first_with_address(s1, address, i);
    assert(registered(s1, name, address, device_type) =~= s1);
}

proof fn lemma_filter_keeps_all<A>(s: Seq<A>, p: spec_fn(A) -> bool)
    requires
        forall|j: int| 0 <= j < s.len() ==> p(s[j]),
    ensures
        s.filter(p) == s,
    decreases s.len(),
{
    reveal(Seq::filter);
    if s.len() > 0 {
        lemma_filter_keeps_all(s.drop_last(), p);
        assert(s.drop_last().push(s.last()) =~= s);
    }
}

proof fn lemma_filter_drops_one<A>(s: Seq<A>, p: spec_fn(A) -> bool, i: int)
    requires
        0 <= i < s.len(),
        !p(s[i]),
        forall|j: int| 0 <= j < s.len() && j != i ==> p(s[j]),
    ensures
        s.filter(p) == s.remove(i),
    decreases s.len(),
{
    reveal(Seq::filter);
    if i == s.len() - 1 {
        lemma_filter_keeps_all(s.drop_last(), p);
        assert(s.remove(i) =~= s.drop_last());
    } else {
        lemma_filter_drops_one(s.drop_last(), p, i);
        assert(s.drop_last().remove(i).push(s.last()) =~= s.remove(i));
    }
}

/// Unregistering an address that is not registered leaves the entries as
/// they were.
pub proof fn lemma_unregister_absent(c: AppConfigView, address: Seq<char>)
    requires
        !has_address(c.registered_devices, address),
    ensures
        c.registered_devices.filter(kept_when_removing(address)) == c.registered_devices,
{
    lemma_filter_keeps_all(c.registered_devices, kept_when_removing(address));
}

/// Unregistering a registered address removes exactly its entry.
pub proof fn lemma_unregister_present(c: AppConfigView, address: Seq<char>)
    requires
        c.wf(),
        has_address(c.registered_devices, address),
    ensures
        ({
            let s = c.registered_devices;
            let i = first_with_address(s, address);
            &&& 0 <= i < s.len()
            &&& s[i].address == address
            &&& s.filter(kept_when_removing(address)) == s.remove(i)
        }),
{
    let s = c.registered_devices;
    let i = choose|i: int| 0 <= i < s.len() && s[i].address == address;
    assert(is_first_with_address(s, address, i));
    lemma_first_with_address(s, address, i);
    lemma_filter_drops_one(s, kept_when_removing(address), i);
}

impl Default for AppConfig {
    /// An empty registry with no default device, automatic connection off
    /// and the default timeout.
    fn default() -> (r: Self)
        ensures
            r@ == (AppConfigView {
                registered_devices: Seq::empty(),
                default_device: None,
                auto_connect: false,
                connection_timeout: DEFAULT_CONNECTION_TIMEOUT,
            }),
    {
        let r = AppConfig {
            registered_devices: Vec::new(),
            default_device: None,
            auto_connect: false,
            connection_timeout: DEFAULT_CONNECTION_TIMEOUT,
        };
        assert(r@.registered_devices =~= Seq::<RegisteredDeviceView>::empty());
        r
    }
}

impl AppConfig {
    /// Registers a device, or renames and retypes the one already registered
    /// under `address`.
    pub fn register_device(&mut self, name: String, address: String, device_type: String)
        ensures
            final(self)@ == (AppConfigView {
                registered_devices: registered(
                    old(self)@.registered_devices,
                    name@,
                    address@,
                    device_type@,
                ),
                ..old(self)@
            }),
            old(self)@.wf() ==> final(self)@.wf(),
    {
        let ghost s = old(self)@.registered_devices;
        let n = self.registered_devices.len();
        let mut i: usize = 0;
        while i < n
            invariant
                n == self.registered_devices.len(),
                *self == *old(self),
                s == self@.registered_devices,
                i <= n,
                forall|j: int| 0 <= j < i ==> s[j].address != address@,
            decreases n - i,
        {
            if self.registered_devices[i].address == address {
                proof {
                    lemma_first_with_address(s, address@, i as int);
                }
                let mut d = self.registered_devices.remove(i);
                d.name = name;
                d.device_type = device_type;
                self.registered_devices.insert(i, d);
                assert(self@.registered_devices =~= registered(s, name@, address@, device_type@));
                return;
            }
            i = i + 1;
        }
        let d = RegisteredDevice { name, address, device_type, last_connected: None };
        self.registered_devices.push(d);
        assert(self@.registered_devices =~= registered(s, name@, address@, device_type@));
    }

    /// Removes every entry with `address`; true when there was one.
    pub fn unregister_device(&mut self, address: &str) -> (r: bool)
        ensures
            r == has_address(old(self)@.registered_devices, address@),
            final(self)@ == (AppConfigView {
                registered_devices: old(self)@.registered_devices.filter(
                    kept_when_removing(address@),
                ),
                ..old(self)@
            }),
    {
        let target = address.to_string();
        let ghost keep = kept_when_removing(address@);
        let mut old_list: Vec<RegisteredDevice> = Vec::new();
        std::mem::swap(&mut self.registered_devices, &mut old_list);
        let ghost orig = registered_views(old_list@);
        let mut kept: Vec<RegisteredDevice> = Vec::new();
        let mut removed = false;
        assert(orig.take(0) =~= Seq::<RegisteredDeviceView>::empty());
        assert(registered_views(kept@) =~= Seq::<RegisteredDeviceView>::empty());
        for d in it: old_list
            invariant
                it.seq() == old_list@,
                orig == registered_views(old_list@),
                keep == kept_when_removing(address@),
                target@ == address@,
                registered_views(kept@) == orig.take(it.index() as int).filter(keep),
                removed == has_address(orig.take(it.index() as int), address@),
        {
            let ghost k = it.index() as int;
            let ghost dv = d@;
            proof {
                reveal(Seq::filter);
            }
            assert(orig.take(k + 1).drop_last() =~= orig.take(k));
            assert(orig[k] == dv);
            let matches = d.address == target;
            assert(orig.take(k + 1).last() == dv);
            assert(keep(dv) == (dv.address != address@));
            if matches {
                assert(orig.take(k + 1)[k].address == address@);
                assert(orig.take(k + 1).filter(keep) == orig.take(k).filter(keep));
            } else {
                kept.push(d);
                assert(registered_views(kept@) =~= orig.take(k).filter(keep).push(dv));
                assert(orig.take(k + 1).filter(keep) == orig.take(k).filter(keep).push(dv));
            }
            proof {
                let pre = orig.take(k);
                let post = orig.take(k + 1);
                if has_address(post, address@) && !has_address(pre, address@) {
                    let w = choose|j: int| 0 <= j < post.len() && post[j].address == address@;
                    if w < k {
                        assert(pre[w] == post[w]);
                    }
                }
                if has_address(pre, address@) {
                    let w = choose|j: int| 0 <= j < pre.len() && pre[j].address == address@;
                    assert(post[w] == pre[w]);
                }
            }
            removed = removed || matches;
        }
        assert(orig.take(orig.len() as int) =~= orig);
        self.registered_devices = kept;
        removed
    }

    /// The first entry registered under `address`.
    pub fn get_registered_device(&self, address: &str) -> (r: Option<&RegisteredDevice>)
        ensures
            r.is_some() <==> has_address(self@.registered_devices, address@),
            r.is_some() ==> r.unwrap()@ == self@.registered_devices[first_with_address(
                self@.registered_devices,
                address@,
            )],
    {
        let target = address.to_string();
        let ghost s = self@.registered_devices;
        let n = self.registered_devices.len();
        let mut i: usize = 0;
        while i < n
            invariant
                n == self.registered_devices.len(),
                s == self@.registered_devices,
                target@ == address@,
                i <= n,
                forall|j: int| 0 <= j < i ==> s[j].address != address@,
            decreases n - i,
        {
            if self.registered_devices[i].address == target {
                proof {
                    lemma_first_with_address(s, address@, i as int);
                }
                return Some(&self.registered_devices[i]);
            }
            i = i + 1;
        }
        None
    }

    /// Sets or clears the default device. The address need not be
    /// registered.
    pub fn set_default_device(&mut self, address: Option<String>)
        ensures
            final(self)@ == (AppConfigView { default_device: opt_view(address), ..old(self)@ }),
    {
        self.default_device = address;
    }
}

} // verus!
