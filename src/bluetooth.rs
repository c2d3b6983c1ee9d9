//! Paired devices as listed in the operating system's device dump, and the
//! manager that validates addresses and turns a dump into device records.
use vstd::prelude::*;
use crate::classify::{classify, classify_spec, DeviceType};
use crate::error::Error;
use crate::mac::{canonical_mac, from_flat_key, valid_mac, validate};
use crate::text::{
    chars_of, contains, contains_exec, find, find_exec, last_index_of, last_index_of_exec, lemma_last_index_of,
    lemma_find, opt_view, push_range, starts_with, starts_with_exec, string_of, trim_range, trimmed,
};

verus! {

/// A device found in the dump.
#[derive(Debug, Clone)]
pub struct BluetoothDevice {
    pub name: String,
    pub address: String,
    pub is_connected: bool,
    pub device_type: String,
}

/// The value of a `BluetoothDevice`.
pub struct DeviceView {
    pub name: Seq<char>,
    pub address: Seq<char>,
    pub is_connected: bool,
    pub device_type: Seq<char>,
}

impl View for BluetoothDevice {
    type V = DeviceView;

    open spec fn view(&self) -> DeviceView {
        DeviceView {
            name: self.name@,
            address: self.address@,
            is_connected: self.is_connected,
            device_type: self.device_type@,
        }
    }
}

/// The values of a sequence of devices.
pub open spec fn device_views(s: Seq<BluetoothDevice>) -> Seq<DeviceView> {
    s.map_values(|d: BluetoothDevice| d@)
}

impl BluetoothDevice {
    /// A device that is not connected.
    pub fn new(name: String, address: String, device_type: String) -> (r: Self)
        ensures
            r@ == (DeviceView {
                name: name@,
                address: address@,
                is_connected: false,
                device_type: device_type@,
            }),
    {
        BluetoothDevice { name, address, is_connected: false, device_type }
    }
}

/// The key path under which the dump lists one block per paired device.
pub const DEVICES_KEY: &'static str =
    "HKEY_LOCAL_MACHINE\\SYSTEM\\CurrentControlSet\\Services\\BTHPORT\\Parameters\\Devices\\";

/// Marks the line that holds a device's friendly name.
pub const FRIENDLY_NAME: &'static str = "FriendlyName";

/// The value type of a string entry; the value follows it on the line.
pub const REG_SZ: &'static str = "REG_SZ";

/// Marks the line that records when a device was last connected.
pub const LAST_CONNECTED: &'static str = "LastConnected";

/// The value type of a 64-bit entry.
pub const REG_QWORD: &'static str = "REG_QWORD";

/// The start of the name given to a device whose block has no friendly name.
pub const UNNAMED_DEVICE: &'static str = "Bluetooth Device ";

/// `s` cut at every `\n`; text after the last `\n` (possibly empty) is the
/// last line.
pub open spec fn split_lines(s: Seq<char>) -> Seq<Seq<char>>
    decreases s.len(),
{
    if s.len() == 0 {
        seq![Seq::empty()]
    } else {
        let prev = split_lines(s.drop_last());
        if s.last() == '\n' {
            prev.push(Seq::empty())
        } else {
            prev.update(prev.len() - 1, prev.last().push(s.last()))
        }
    }
}

/// What the parser holds between lines: the records emitted so far, and the
/// key, name and connection flag of the block being read.
pub struct ScanState {
    pub devices: Seq<DeviceView>,
    pub key: Option<Seq<char>>,
    pub name: Option<Seq<char>>,
    pub connected: bool,
}

pub open spec fn initial_scan() -> ScanState {
    ScanState { devices: Seq::empty(), key: None, name: None, connected: false }
}

/// The name a record gets: its friendly name, or one made from the first
/// eight characters of its address.
pub open spec fn record_name(name: Option<Seq<char>>, address: Seq<char>) -> Seq<char> {
    match name {
        Some(n) => n,
        None => UNNAMED_DEVICE@ + address.take(8),
    }
}

/// The record for a block with a 12-character key.
pub open spec fn record_for(key: Seq<char>, name: Option<Seq<char>>, connected: bool) -> DeviceView {
    let address = canonical_mac(key);
    let n = record_name(name, address);
    DeviceView {
        name: n,
        address,
        is_connected: connected,
        device_type: classify_spec(n).spec_label(),
    }
}

/// The records after the pending block is closed: one more if its key has
/// 12 characters, none otherwise.
pub open spec fn flushed(st: ScanState) -> Seq<DeviceView> {
    match st.key {
        Some(k) => if k.len() == 12 {
            st.devices.push(record_for(k, st.name, st.connected))
        } else {
            st.devices
        },
        None => st.devices,
    }
}

/// The last path segment of a block line.
pub open spec fn key_segment(line: Seq<char>) -> Seq<char> {
    line.subrange(last_index_of(line, '\\') + 1, line.len() as int)
}

/// The value of a friendly-name line: what follows the first `REG_SZ`,
/// trimmed.
pub open spec fn name_value(line: Seq<char>) -> Seq<char> {
    trimmed(line.subrange(find(line, REG_SZ@) + REG_SZ@.len(), line.len() as int))
}

/// The effect of one line of the dump. A last-connected entry marks the
/// block's device as connected: this is an estimate from history, not the
/// device's live state.
pub open spec fn scan_line(st: ScanState, raw: Seq<char>) -> ScanState {
    let line = trimmed(raw);
    if starts_with(line, DEVICES_KEY@) {
        ScanState { devices: flushed(st), key: Some(key_segment(line)), name: None, connected: false }
    } else if contains(line, FRIENDLY_NAME@) && contains(line, REG_SZ@) {
        if name_value(line).len() > 0 {
            ScanState { name: Some(name_value(line)), ..st }
        } else {
            st
        }
    } else if contains(line, LAST_CONNECTED@) && contains(line, REG_QWORD@) {
        ScanState { connected: true, ..st }
    } else {
        st
    }
}

/// The state after reading `lines` in order, starting from `st`.
pub open spec fn scan_from(st: ScanState, lines: Seq<Seq<char>>) -> ScanState
    decreases lines.len(),
{
    if lines.len() == 0 {
        st
    } else {
        scan_line(scan_from(st, lines.drop_last()), lines.last())
    }
}

/// The state after reading `lines` in order.
pub open spec fn scan_lines(lines: Seq<Seq<char>>) -> ScanState {
    scan_from(initial_scan(), lines)
}

/// The records a dump describes, in the order of their blocks.
pub open spec fn parse_spec(text: Seq<char>) -> Seq<DeviceView> {
    flushed(scan_lines(split_lines(text)))
}

/// A line that opens a new block.
pub open spec fn is_block_line(raw: Seq<char>) -> bool {
    starts_with(trimmed(raw), DEVICES_KEY@)
}

/// Reading `a` then `b` is reading `a + b`.
pub proof fn lemma_scan_concat(st: ScanState, a: Seq<Seq<char>>, b: Seq<Seq<char>>)
    ensures
        scan_from(st, a + b) == scan_from(scan_from(st, a), b),
    decreases b.len(),
{
    if b.len() == 0 {
        assert(a + b =~= a);
    } else {
        lemma_scan_concat(st, a, b.drop_last());
        assert((a + b).drop_last() =~= a + b.drop_last());
        assert((a + b).last() == b.last());
    }
}

/// Lines that open no block keep the records and the pending key.
proof fn lemma_scan_inside_block(st: ScanState, lines: Seq<Seq<char>>)
    requires
        forall|i: int| 0 <= i < lines.len() ==> !is_block_line(lines[i]),
    ensures
        scan_from(st, lines).devices == st.devices,
        scan_from(st, lines).key == st.key,
    decreases lines.len(),
{
    if lines.len() > 0 {
        lemma_scan_inside_block(st, lines.drop_last());
        assert(!is_block_line(lines[lines.len() - 1]));
    }
}

/// Reading a line that opens a block, then `rest`.
proof fn lemma_scan_first(st: ScanState, lines: Seq<Seq<char>>)
    requires
        lines.len() >= 1,
    ensures
        scan_from(st, lines) == scan_from(scan_line(st, lines[0]), lines.drop_first()),
{
    let one = seq![lines[0]];
    lemma_scan_concat(st, one, lines.drop_first());
    assert(one + lines.drop_first() =~= lines);
    assert(one.drop_last() =~= Seq::<Seq<char>>::empty());
    assert(one.last() == lines[0]);
    assert(scan_from(st, one.drop_last()) == st);
    assert(scan_from(st, one) == scan_line(st, lines[0]));
}

/// A block whose key does not have 12 characters yields no record, and
/// leaves the records of the blocks before and after it as they are: the
/// dump's lines give the same records with the block taken out.
pub proof fn lemma_short_key_block_dropped(
    before: Seq<Seq<char>>,
    block: Seq<Seq<char>>,
    after: Seq<Seq<char>>,
)
    requires
        block.len() >= 1,
        is_block_line(block[0]),
        key_segment(trimmed(block[0])).len() != 12,
        forall|i: int| 1 <= i < block.len() ==> !is_block_line(block[i]),
        after.len() == 0 || is_block_line(after[0]),
    ensures
        flushed(scan_lines(before + block + after)) == flushed(scan_lines(before + after)),
{
    let s_a = scan_lines(before);
    lemma_scan_concat(initial_scan(), before + block, after);
    lemma_scan_concat(initial_scan(), before, block);
    lemma_scan_concat(initial_scan(), before, after);
    lemma_scan_first(s_a, block);
    let s1 = scan_line(s_a, block[0]);
    let rest = block.drop_first();
    assert forall|i: int| 0 <= i < rest.len() implies !is_block_line(rest[i]) by {
        assert(rest[i] == block[i + 1]);
    }
    lemma_scan_inside_block(s1, rest);
    let s2 = scan_from(s1, rest);
    assert(s2.devices == flushed(s_a));
    assert(flushed(s2) == flushed(s_a));
    if after.len() == 0 {
        assert(before + after =~= before);
    } else {
        lemma_scan_first(s2, after);
        lemma_scan_first(s_a, after);
        assert(scan_line(s2, after[0]) == scan_line(s_a, after[0]));
    }
}

/// The parser's state while it reads a dump.
struct Scanner {
    devices: Vec<BluetoothDevice>,
    key: Option<String>,
    name: Option<String>,
    connected: bool,
}

impl View for Scanner {
    type V = ScanState;

    closed spec fn view(&self) -> ScanState {
        ScanState {
            devices: device_views(self.devices@),
            key: opt_view(self.key),
            name: opt_view(self.name),
            connected: self.connected,
        }
    }
}

/// The name for a device without a friendly name.
fn unnamed_device_name(address: &String) -> (r: String)
    requires
        address@.len() >= 8,
    ensures
        r@ == UNNAMED_DEVICE@ + address@.take(8),
{
    let mut r = UNNAMED_DEVICE.to_string();
    let a = chars_of(address.as_str());
    push_range(&mut r, &a, 0, 8);
    assert(a@.subrange(0, 8) =~= address@.take(8));
    r
}

/// Manages the paired devices of this host.
pub struct BluetoothManager;

impl BluetoothManager {
    pub fn new() -> (r: Self) {
        BluetoothManager
    }

    /// Whether `address` is a well-formed address `XX:XX:XX:XX:XX:XX`.
    pub fn is_valid_mac_address(&self, address: &str) -> (r: bool)
        ensures
            r == valid_mac(address@),
    {
        validate(address)
    }

    /// The canonical address for a flat 12-character key, `None` for a key of
    /// any other length.
    pub fn format_mac_address(&self, registry_key: &str) -> (r: Option<String>)
        ensures
            r.is_none() <==> registry_key@.len() != 12,
            r.is_some() ==> r.unwrap()@ == canonical_mac(registry_key@),
    {
        from_flat_key(registry_key)
    }

    /// The category label for a device name.
    pub fn determine_device_type_from_name(&self, device_name: &str) -> (r: String)
        ensures
            r@ == classify_spec(device_name@).spec_label(),
    {
        let kind: DeviceType = classify(device_name);
        kind.label()
    }

    /// Connects to the device at `address`; fails exactly when the address is
    /// not well-formed.
    pub fn connect_device(&self, address: &str) -> (r: Result<(), Error>)
        ensures
            r.is_ok() <==> valid_mac(address@),
            r matches Err(Error::Validation(a)) ==> a@ == address@,
            r.is_err() ==> r matches Err(Error::Validation(_)),
    {
        if !self.is_valid_mac_address(address) {
            return Err(Error::Validation(address.to_string()));
        }
        Ok(())
    }

    /// Disconnects from the device at `address`; fails exactly when the
    /// address is not well-formed.
    pub fn disconnect_device(&self, address: &str) -> (r: Result<(), Error>)
        ensures
            r.is_ok() <==> valid_mac(address@),
            r matches Err(Error::Validation(a)) ==> a@ == address@,
            r.is_err() ==> r matches Err(Error::Validation(_)),
    {
        if !self.is_valid_mac_address(address) {
            return Err(Error::Validation(address.to_string()));
        }
        Ok(())
    }

    /// Closes the pending block of `sc`.
    fn flush(&self, sc: Scanner) -> (r: Vec<BluetoothDevice>)
        ensures
            device_views(r@) == flushed(sc@),
    {
        let Scanner { mut devices, key, name, connected } = sc;
        let ghost before = device_views(devices@);
        if let Some(k) = key {
            if let Some(address) = self.format_mac_address(k.as_str()) {
                let device_name = match name {
                    Some(n) => n,
                    None => unnamed_device_name(&address),
                };
                let device_type = self.determine_device_type_from_name(device_name.as_str());
                let d = BluetoothDevice {
                    name: device_name,
                    address,
                    is_connected: connected,
                    device_type,
                };
                let ghost dv = d@;
                devices.push(d);
                assert(device_views(devices@) =~= before.push(dv));
            }
        }
        devices
    }

    /// Reads the line `text[lo..hi]` into `sc`.
    fn scan_line(&self, sc: Scanner, text: &Vec<char>, lo: usize, hi: usize) -> (r: Scanner)
        requires
            lo <= hi <= text.len(),
        ensures
            r@ == scan_line(sc@, text@.subrange(lo as int, hi as int)),
    {
        let line = trim_range(text, lo, hi);
        let ghost l = line@;
        if starts_with_exec(&line, &chars_of(DEVICES_KEY)) {
            let devices = self.flush(sc);
            proof {
                lemma_last_index_of(l, '\\');
            }
            let key = match last_index_of_exec(&line, '\\') {
                Some(p) => string_of(&line, p + 1, line.len()),
                None => string_of(&line, 0, line.len()),
            };
            Scanner { devices, key: Some(key), name: None, connected: false }
        } else if contains_exec(&line, &chars_of(FRIENDLY_NAME)) && contains_exec(
            &line,
            &chars_of(REG_SZ),
        ) {
            let reg_sz = chars_of(REG_SZ);
            proof {
                lemma_find(l, REG_SZ@);
            }
            match find_exec(&line, &reg_sz) {
                Some(p) => {
                    let value = trim_range(&line, p + reg_sz.len(), line.len());
                    if value.len() > 0 {
                        let name = string_of(&value, 0, value.len());
                        assert(value@.subrange(0, value@.len() as int) =~= value@);
                        Scanner { name: Some(name), ..sc }
                    } else {
                        sc
                    }
                },
                None => sc,
            }
        } else if contains_exec(&line, &chars_of(LAST_CONNECTED)) && contains_exec(
            &line,
            &chars_of(REG_QWORD),
        ) {
            Scanner { connected: true, ..sc }
        } else {
            sc
        }
    }

    /// Turns a device dump into device records, in the order of their
    /// blocks. Blocks whose key does not have 12 characters are dropped;
    /// malformed input gives fewer records, never an error. A device counts
    /// as connected when its block records a last connection, which
    /// estimates rather than observes the connection state.
    pub fn parse_bluetooth_registry(&self, registry_output: &str) -> (r: Vec<BluetoothDevice>)
        ensures
            device_views(r@) == parse_spec(registry_output@),
    {
        let text = chars_of(registry_output);
        let mut sc = Scanner { devices: Vec::new(), key: None, name: None, connected: false };
        assert(sc@.devices =~= Seq::<DeviceView>::empty());
        let mut start: usize = 0;
        let mut i: usize = 0;
        proof {
            assert(text@.take(0) =~= Seq::<char>::empty());
            assert(text@.subrange(0, 0) =~= Seq::<char>::empty());
        }
        while i < text.len()
            invariant
                text@ == registry_output@,
                start <= i <= text.len(),
                split_lines(text@.take(i as int)).len() >= 1,
                split_lines(text@.take(i as int)).last() == text@.subrange(
                    start as int,
                    i as int,
                ),
                sc@ == scan_lines(split_lines(text@.take(i as int)).drop_last()),
            decreases text.len() - i,
        {
            let ghost prev = split_lines(text@.take(i as int));
            assert(text@.take(i + 1).drop_last() =~= text@.take(i as int));
            if text[i] == '\n' {
                sc = self.scan_line(sc, &text, start, i);
                assert(prev.push(Seq::empty()).drop_last() =~= prev);
                assert(prev =~= prev.drop_last().push(prev.last()));
                start = i + 1;
                assert(text@.subrange(start as int, i + 1) =~= Seq::<char>::empty());
            } else {
                let ghost next = prev.update(prev.len() - 1, prev.last().push(text@[i as int]));
                assert(next.drop_last() =~= prev.drop_last());
                assert(next.last() =~= text@.subrange(start as int, i + 1));
            }
            i = i + 1;
        }
        assert(text@.take(i as int) =~= text@);
        let ghost lines = split_lines(text@);
        sc = self.scan_line(sc, &text, start, i);
        assert(lines =~= lines.drop_last().push(lines.last()));
        self.flush(sc)
    }
}

impl Default for BluetoothManager {
    fn default() -> (r: Self) {
        Self::new()
    }
}

} // verus!
