//! The dock's configuration and the state of its child slots: which Stream
//! Deck is attached at which slot, and which slot each serial reserved.

use vstd::prelude::*;
use vstd::string::{StringExecFns, StringSliceAdditionalSpecFns};

use crate::constants::{DEFAULT_PRIMARY_TCP_PORT, DEFAULT_SECONDARY_TCP_PORT};
use crate::reports::{field_bytes, field_len, ChildDeviceInfo};

verus! {

/// The number of child slots of a dock.
pub const MAX_CHILD_SLOTS: usize = 8;

/// Whether the server acts as a Network Dock or as a single Stream Deck.
#[derive(Debug, Clone, Copy, PartialEq, Eq, Structural)]
pub enum ServerMode {
    Dock,
    Direct,
}

impl Default for ServerMode {
    fn default() -> (r: ServerMode)
        ensures
            r == ServerMode::Dock,
    {
        ServerMode::Dock
    }
}

/// The Unicode lower case of a text, as `str::to_lowercase` gives it.
pub uninterp spec fn spec_to_lowercase(s: Seq<char>) -> Seq<char>;

/// `str::to_lowercase`: the lower-case form of `s`. The contract only names
/// the result, by the text it is computed from.
#[verifier::external_body]
pub(crate) fn str_to_lowercase(s: &str) -> (r: String)
    ensures
        r@ == spec_to_lowercase(s@),
{
    s.to_lowercase()
}

/// The error text for a mode that is neither `dock` nor `direct`.
pub open spec fn invalid_mode_message(s: Seq<char>) -> Seq<char> {
    "Invalid mode: '"@ + s + "'. Expected 'dock' or 'direct'"@
}

/// The mode named by the lower-case form `lowered` of a command-line value
/// `original`: `dock` or `direct`, else an error that quotes the value.
pub fn server_mode_from_lowercase(lowered: &str, original: &str) -> (r: Result<ServerMode, String>)
    ensures
        lowered@ == "dock"@ ==> r == Ok::<ServerMode, String>(ServerMode::Dock),
        lowered@ == "direct"@ ==> r == Ok::<ServerMode, String>(ServerMode::Direct),
        lowered@ != "dock"@ && lowered@ != "direct"@ ==> (r matches Err(m) && m@
            == invalid_mode_message(original@)),
{
    proof {
        reveal_strlit("dock");
        reveal_strlit("direct");
        assert("dock"@.len() == 4);
        assert("direct"@.len() == 6);
    }
    let l = lowered.to_owned();
    if l == "dock".to_owned() {
        Ok(ServerMode::Dock)
    } else if l == "direct".to_owned() {
        Ok(ServerMode::Direct)
    } else {
        let mut m = "Invalid mode: '".to_owned();
        m.append(original);
        m.append("'. Expected 'dock' or 'direct'");
        Err(m)
    }
}

/// Parse a mode from the command line, ignoring case.
pub fn parse_server_mode(s: &str) -> (r: Result<ServerMode, String>)
    ensures
        spec_to_lowercase(s@) == "dock"@ ==> r == Ok::<ServerMode, String>(ServerMode::Dock),
        spec_to_lowercase(s@) == "direct"@ ==> r == Ok::<ServerMode, String>(ServerMode::Direct),
        spec_to_lowercase(s@) != "dock"@ && spec_to_lowercase(s@) != "direct"@ ==> (r matches Err(
            m,
        ) && m@ == invalid_mode_message(s@)),
{
    let lowered = str_to_lowercase(s);
    server_mode_from_lowercase(lowered.as_str(), s)
}

impl std::str::FromStr for ServerMode {
    type Err = String;

    fn from_str(s: &str) -> (r: Result<ServerMode, String>)
        ensures
            spec_to_lowercase(s@) == "dock"@ ==> r == Ok::<ServerMode, String>(ServerMode::Dock),
            spec_to_lowercase(s@) == "direct"@ ==> r == Ok::<ServerMode, String>(ServerMode::Direct),
            spec_to_lowercase(s@) != "dock"@ && spec_to_lowercase(s@) != "direct"@ ==> (r matches Err(
                m,
            ) && m@ == invalid_mode_message(s@)),
    {
        parse_server_mode(s)
    }
}

/// Hardware and network configuration for the running dock.
#[derive(Debug, Clone)]
pub struct DockConfig {
    pub serial_number: String,
    pub firmware_version: String,
    pub mac_address: [u8; 6],
    pub primary_port: u16,
    pub secondary_port: u16,
    pub mode: ServerMode,
}

impl DockConfig {
    /// A copy of this configuration.
    pub fn duplicate(&self) -> (r: DockConfig)
        ensures
            r == *self,
    {
        DockConfig {
            serial_number: self.serial_number.clone(),
            firmware_version: self.firmware_version.clone(),
            mac_address: self.mac_address,
            primary_port: self.primary_port,
            secondary_port: self.secondary_port,
            mode: self.mode,
        }
    }
}

impl Default for DockConfig {
    fn default() -> (r: DockConfig)
        ensures
            r.serial_number@ == "DL01A1A00001"@,
            r.firmware_version@ == "1.0.0.0"@,
            r.mac_address@ == seq![0x00u8, 0x1Au8, 0x7Du8, 0xDAu8, 0x71u8, 0x01u8],
            r.primary_port == DEFAULT_PRIMARY_TCP_PORT,
            r.secondary_port == DEFAULT_SECONDARY_TCP_PORT,
            r.mode == ServerMode::Dock,
    {
        let mac: [u8; 6] = [0x00, 0x1A, 0x7D, 0xDA, 0x71, 0x01];
        assert(mac@ =~= seq![0x00u8, 0x1Au8, 0x7Du8, 0xDAu8, 0x71u8, 0x01u8]);
        DockConfig {
            serial_number: "DL01A1A00001".to_owned(),
            firmware_version: "1.0.0.0".to_owned(),
            mac_address: mac,
            primary_port: DEFAULT_PRIMARY_TCP_PORT,
            secondary_port: DEFAULT_SECONDARY_TCP_PORT,
            mode: ServerMode::Dock,
        }
    }
}

/// An allocated child slot.
#[derive(Debug, Clone)]
pub struct SlotEntry {
    pub slot_index: u8,
    pub port: u16,
    pub serial: String,
    pub child_info: ChildDeviceInfo,
}

/// The dock state shared by all connections: its configuration, its slots, the
/// slot each serial last had, and the connection counter.
pub struct DockStateInner {
    pub config: DockConfig,
    pub slots: [Option<SlotEntry>; 8],
    pub sticky_map: Vec<(String, u8)>,
    pub conn_counter: u8,
}

/// The slot reserved for a serial, if any: that of its last entry.
pub open spec fn sticky_lookup(m: Seq<(String, u8)>, key: Seq<char>) -> Option<u8>
    decreases m.len(),
{
    if m.len() == 0 {
        None
    } else if m.last().0@ == key {
        Some(m.last().1)
    } else {
        sticky_lookup(m.drop_last(), key)
    }
}

/// The lookup finds the last entry with the key, or nothing when none has it.
proof fn lemma_sticky_lookup_at(m: Seq<(String, u8)>, key: Seq<char>, i: int)
    requires
        -1 <= i < m.len(),
        i >= 0 ==> m[i].0@ == key,
        forall|j: int| i < j < m.len() ==> m[j].0@ != key,
    ensures
        sticky_lookup(m, key) == if i >= 0 {
            Some(m[i].1)
        } else {
            None::<u8>
        },
    decreases m.len(),
{
    if m.len() > 0 && i < m.len() - 1 {
        assert(m.last() == m[m.len() - 1]);
        lemma_sticky_lookup_at(m.drop_last(), key, i);
    }
}

/// Replacing an entry by one with the same key changes no other key's lookup,
/// and gives the key the new value when the entry was its last.
proof fn lemma_sticky_update(m: Seq<(String, u8)>, i: int, x: (String, u8), k: Seq<char>)
    requires
        0 <= i < m.len(),
        m[i].0@ == x.0@,
        forall|j: int| i < j < m.len() ==> m[j].0@ != x.0@,
    ensures
        sticky_lookup(m.update(i, x), k) == if k == x.0@ {
            Some(x.1)
        } else {
            sticky_lookup(m, k)
        },
    decreases m.len(),
{
    let m2 = m.update(i, x);
    if i == m.len() - 1 {
        assert(m2.drop_last() =~= m.drop_last());
    } else {
        assert(m2.drop_last() =~= m.drop_last().update(i, x));
        lemma_sticky_update(m.drop_last(), i, x, k);
    }
}

/// `i` is the first free slot.
pub open spec fn is_first_free(slots: Seq<Option<SlotEntry>>, i: int) -> bool {
    &&& 0 <= i < slots.len()
    &&& slots[i] is None
    &&& forall|j: int| 0 <= j < i ==> slots[j] is Some
}

/// The lowest free slot, or slot 0 when all are taken.
pub open spec fn spec_lowest_free(slots: Seq<Option<SlotEntry>>) -> int {
    if exists|i: int| is_first_free(slots, i) {
        choose|i: int| is_first_free(slots, i)
    } else {
        0
    }
}

/// The slot a device with `serial` is attached at: its reserved slot when that
/// is free, else the lowest free slot (slot 0 when none is free).
pub open spec fn spec_target_slot(st: DockStateInner, serial: Seq<char>) -> int {
    match sticky_lookup(st.sticky_map@, serial) {
        Some(prev) => if (prev as int) < 8 && st.slots@[prev as int] is None {
            prev as int
        } else {
            spec_lowest_free(st.slots@)
        },
        None => spec_lowest_free(st.slots@),
    }
}

/// The records of the occupied slots, in slot order.
pub open spec fn active_children(slots: Seq<Option<SlotEntry>>) -> Seq<ChildDeviceInfo>
    decreases slots.len(),
{
    if slots.len() == 0 {
        Seq::empty()
    } else {
        let prefix = active_children(slots.drop_last());
        match slots.last() {
            Some(e) => prefix.push(e.child_info),
            None => prefix,
        }
    }
}

/// The record of a connected device, as `ChildDeviceInfo::connected` makes it.
pub open spec fn is_connected_record(
    c: ChildDeviceInfo,
    slot: u8,
    vendor_id: u16,
    product_id: u16,
    name: Seq<u8>,
    serial: Seq<u8>,
    port: u16,
) -> bool {
    &&& c.connected
    &&& c.slot_index == slot
    &&& c.vendor_id == vendor_id
    &&& c.product_id == product_id
    &&& c.product_name_len == field_len(name, 31)
    &&& c.product_name@ == field_bytes(name, 31)
    &&& c.serial_len == field_len(serial, 31)
    &&& c.serial_number@ == field_bytes(serial, 31)
    &&& c.tcp_port == port
}

/// The record of an empty slot, as `ChildDeviceInfo::disconnected` makes it.
pub open spec fn is_disconnected_record(c: ChildDeviceInfo, slot: u8) -> bool {
    &&& !c.connected
    &&& c.slot_index == slot
    &&& c.vendor_id == 0
    &&& c.product_id == 0
    &&& c.product_name@ == crate::bufops::zeros(32)
    &&& c.product_name_len == 0
    &&& c.serial_number@ == crate::bufops::zeros(32)
    &&& c.serial_len == 0
    &&& c.tcp_port == 0
}

/// `a` and `b` have the same configuration and counter.
pub open spec fn same_config(a: DockStateInner, b: DockStateInner) -> bool {
    a.config == b.config && a.conn_counter == b.conn_counter
}

/// The slots of `b` are those of `a` but at `i`.
pub open spec fn slots_same_except(a: DockStateInner, b: DockStateInner, i: int) -> bool {
    forall|j: int| 0 <= j < 8 && j != i ==> #[trigger] b.slots@[j] == a.slots@[j]
}

/// `after` is `before` with the device `serial` attached at `slot` on `port`
/// with record `child`, and `slot` reserved for `serial`.
pub open spec fn attach_post(
    before: DockStateInner,
    serial: Seq<char>,
    after: DockStateInner,
    slot: u8,
    port: u16,
    child: ChildDeviceInfo,
) -> bool {
    &&& slot as int == spec_target_slot(before, serial)
    &&& port as int == if before.config.secondary_port + slot > u16::MAX {
        u16::MAX as int
    } else {
        before.config.secondary_port + slot
    }
    &&& (after.slots@[slot as int] matches Some(e) && e.slot_index == slot && e.port == port
        && e.serial@ == serial && e.child_info == child)
    &&& slots_same_except(before, after, slot as int)
    &&& forall|k: Seq<char>|
        #[trigger] sticky_lookup(after.sticky_map@, k) == if k == serial {
            Some(slot)
        } else {
            sticky_lookup(before.sticky_map@, k)
        }
    &&& same_config(before, after)
}

/// The slot holds a device with `serial`.
pub open spec fn holds_serial(slot: Option<SlotEntry>, serial: Seq<char>) -> bool {
    slot matches Some(e) && e.serial@ == serial
}

/// `i` is the first slot holding a device with `serial`.
pub open spec fn is_first_with_serial(slots: Seq<Option<SlotEntry>>, serial: Seq<char>, i: int) -> bool {
    &&& 0 <= i < slots.len()
    &&& holds_serial(slots[i], serial)
    &&& forall|j: int| 0 <= j < i ==> !holds_serial(#[trigger] slots[j], serial)
}

/// `after` is `before` with the first slot holding `serial` freed, reported as
/// `r` (its slot and the record of the empty slot); nothing changes when no
/// slot holds it. Reservations stay.
pub open spec fn detach_post(
    before: DockStateInner,
    serial: Seq<char>,
    after: DockStateInner,
    r: Option<(u8, ChildDeviceInfo)>,
) -> bool {
    &&& same_config(before, after)
    &&& after.sticky_map@ == before.sticky_map@
    &&& match r {
        Some((s, c)) => exists|i: int|
            is_first_with_serial(before.slots@, serial, i) && before.slots@[i]->0.slot_index == s
                && after.slots@[i] is None && slots_same_except(before, after, i)
                && is_disconnected_record(c, s),
        None => (forall|i: int| !is_first_with_serial(before.slots@, serial, i)) && after.slots@
            == before.slots@,
    }
}

/// The record of the device at `slot`, if one is attached there.
pub open spec fn slot_child(st: DockStateInner, slot: u8) -> Option<ChildDeviceInfo> {
    if (slot as int) < 8 && st.slots@[slot as int] is Some {
        Some(st.slots@[slot as int]->0.child_info)
    } else {
        None
    }
}

/// `after` is `before` with `slot` set to `child` (taking its port from the
/// record) or emptied, reported as `r`: the record to announce; nothing changes
/// and nothing is reported for a slot out of range.
pub open spec fn set_slot_post(
    before: DockStateInner,
    slot: u8,
    child: Option<ChildDeviceInfo>,
    after: DockStateInner,
    r: Option<ChildDeviceInfo>,
) -> bool {
    &&& same_config(before, after)
    &&& after.sticky_map == before.sticky_map
    &&& (slot as int) >= 8 ==> r is None && after.slots == before.slots
    &&& (slot as int) < 8 ==> slots_same_except(before, after, slot as int)
    &&& (slot as int) < 8 ==> match child {
        Some(c) => r == Some(c) && (after.slots@[slot as int] matches Some(e) && e.slot_index == slot
            && e.port == c.tcp_port && e.child_info == c),
        None => r matches Some(d) && is_disconnected_record(d, slot) && after.slots@[slot as int] is None,
    }
}

/// The position of the last entry of `m` for `serial`, if any.
fn sticky_position(m: &Vec<(String, u8)>, serial: &str) -> (r: Option<usize>)
    ensures
        match r {
            Some(i) => i < m@.len() && m@[i as int].0@ == serial@ && forall|j: int|
                i < j < m@.len() ==> m@[j].0@ != serial@,
            None => forall|j: int| 0 <= j < m@.len() ==> m@[j].0@ != serial@,
        },
{
    let key = serial.to_owned();
    let mut i: usize = m.len();
    while i > 0
        invariant
            i <= m@.len(),
            key@ == serial@,
            forall|j: int| i <= j < m@.len() ==> m@[j].0@ != serial@,
        decreases i,
    {
        if m[i - 1].0 == key {
            return Some(i - 1);
        }
        i = i - 1;
    }
    None
}

/// The slot of `serial` in `m`, if reserved.
fn sticky_get(m: &Vec<(String, u8)>, serial: &str) -> (r: Option<u8>)
    ensures
        r == sticky_lookup(m@, serial@),
{
    match sticky_position(m, serial) {
        Some(i) => {
            proof {
                lemma_sticky_lookup_at(m@, serial@, i as int);
            }
            Some(m[i].1)
        },
        None => {
            proof {
                lemma_sticky_lookup_at(m@, serial@, -1);
            }
            None
        },
    }
}

/// Reserve `slot` for `serial`: its last entry is updated, or one is added.
fn sticky_set(m: &mut Vec<(String, u8)>, serial: &str, slot: u8)
    ensures
        forall|k: Seq<char>|
            #[trigger] sticky_lookup(final(m)@, k) == if k == serial@ {
                Some(slot)
            } else {
                sticky_lookup(old(m)@, k)
            },
{
    let ghost old_m = m@;
    let entry = (serial.to_owned(), slot);
    let ghost x = entry;
    match sticky_position(m, serial) {
        Some(i) => {
            m.set(i, entry);
            assert forall|k: Seq<char>| #[trigger]
                sticky_lookup(m@, k) == if k == serial@ {
                    Some(slot)
                } else {
                    sticky_lookup(old_m, k)
                } by {
                lemma_sticky_update(old_m, i as int, x, k);
            }
        },
        None => {
            m.push(entry);
            assert forall|k: Seq<char>| #[trigger]
                sticky_lookup(m@, k) == if k == serial@ {
                    Some(slot)
                } else {
                    sticky_lookup(old_m, k)
                } by {
                assert(m@.drop_last() =~= old_m);
            }
        },
    }
}

/// The lowest free slot, or 0 when all are occupied.
pub fn find_lowest_free_slot(slots: &[Option<SlotEntry>; 8]) -> (r: usize)
    ensures
        r as int == spec_lowest_free(slots@),
        r < 8,
{
    let mut i: usize = 0;
    while i < 8
        invariant
            i <= 8,
            slots@.len() == 8,
            forall|j: int| 0 <= j < i ==> slots@[j] is Some,
        decreases 8 - i,
    {
        if slots[i].is_none() {
            assert(is_first_free(slots@, i as int));
            assert forall|k: int| is_first_free(slots@, k) implies k == i by {
                if k > i {
                    assert(slots@[i as int] is None);
                }
            }
            return i;
        }
        i = i + 1;
    }
    assert(!exists|k: int| is_first_free(slots@, k));
    0
}

impl DockStateInner {
    /// The state of a dock without children or reservations; the first
    /// connection id is 1.
    pub fn new(config: DockConfig) -> (r: DockStateInner)
        ensures
            r.config == config,
            forall|i: int| 0 <= i < 8 ==> r.slots@[i] is None,
            r.sticky_map@.len() == 0,
            r.conn_counter == 1,
    {
        DockStateInner {
            config,
            slots: [None, None, None, None, None, None, None, None],
            sticky_map: Vec::new(),
            conn_counter: 1,
        }
    }

    /// The slots are indexed by their own slot numbers.
    pub open spec fn wf(&self) -> bool {
        forall|i: int|
            0 <= i < 8 ==> (#[trigger] self.slots@[i] matches Some(e) ==> e.slot_index == i)
    }

    /// Hand out a connection id, in 1..=254: the counter's value (1 when the
    /// counter is out of that range); the counter moves on to the next id,
    /// from 254 back to 1.
    pub fn next_connection_id(&mut self) -> (r: u8)
        ensures
            1 <= r <= 254,
            r == (if 1 <= old(self).conn_counter <= 254 {
                old(self).conn_counter
            } else {
                1
            }),
            final(self).conn_counter == (if r == 254 {
                1
            } else {
                r + 1
            }),
            final(self).config == old(self).config,
            final(self).slots == old(self).slots,
            final(self).sticky_map == old(self).sticky_map,
    {
        let id = if 1 <= self.conn_counter && self.conn_counter <= 254 {
            self.conn_counter
        } else {
            1
        };
        self.conn_counter = if id == 254 {
            1
        } else {
            id + 1
        };
        id
    }

    /// The current dock configuration.
    pub fn config(&self) -> (r: DockConfig)
        ensures
            r == self.config,
    {
        self.config.duplicate()
    }

    /// The record of the device at `slot_index`, or that of an empty slot.
    pub fn child_device_at(&self, slot_index: u8) -> (r: ChildDeviceInfo)
        ensures
            match slot_child(*self, slot_index) {
                Some(c) => r == c,
                None => is_disconnected_record(r, slot_index),
            },
    {
        let idx = slot_index as usize;
        if idx < MAX_CHILD_SLOTS {
            if let Some(entry) = &self.slots[idx] {
                return entry.child_info;
            }
        }
        ChildDeviceInfo::disconnected(slot_index)
    }

    /// The records of all attached devices, in slot order.
    pub fn all_active_children(&self) -> (r: Vec<ChildDeviceInfo>)
        ensures
            r@ == active_children(self.slots@),
    {
        let mut r: Vec<ChildDeviceInfo> = Vec::new();
        let mut i: usize = 0;
        while i < MAX_CHILD_SLOTS
            invariant
                i <= 8,
                self.slots@.len() == 8,
                r@ == active_children(self.slots@.take(i as int)),
            decreases 8 - i,
        {
            assert(self.slots@.take(i + 1).drop_last() =~= self.slots@.take(i as int));
            if let Some(entry) = &self.slots[i] {
                r.push(entry.child_info);
            }
            i = i + 1;
        }
        assert(self.slots@.take(8) =~= self.slots@);
        r
    }

    /// Attach a device with `serial` at its reserved slot when that is free,
    /// else at the lowest free slot; reserve that slot for it. Returns the slot,
    /// the port (the secondary port plus the slot, saturating) and the record
    /// to announce.
    pub fn attach_device(&mut self, serial: &str, vid: u16, pid: u16, model_name: &str) -> (r: (
        u8,
        u16,
        ChildDeviceInfo,
    ))
        requires
            old(self).wf(),
        ensures
            final(self).wf(),
            attach_post(*old(self), serial@, *final(self), r.0, r.1, r.2),
            is_connected_record(
                r.2,
                r.0,
                vid,
                pid,
                model_name.spec_bytes(),
                serial.spec_bytes(),
                r.1,
            ),
    {
        let target_slot = match sticky_get(&self.sticky_map, serial) {
            Some(prev_slot) => {
                let idx = prev_slot as usize;
                if idx < MAX_CHILD_SLOTS && self.slots[idx].is_none() {
                    idx
                } else {
                    find_lowest_free_slot(&self.slots)
                }
            },
            None => find_lowest_free_slot(&self.slots),
        };
        let slot_index = target_slot as u8;
        let port = self.config.secondary_port.saturating_add(slot_index as u16);
        let child_info = ChildDeviceInfo::connected(slot_index, vid, pid, model_name, serial, port);
        let ghost before = *self;
        self.slots[target_slot] = Some(
            SlotEntry { slot_index, port, serial: serial.to_owned(), child_info },
        );
        sticky_set(&mut self.sticky_map, serial, slot_index);
        assert(slots_same_except(before, *self, target_slot as int));
        (slot_index, port, child_info)
    }

    /// Free the first slot holding the device `serial`, keeping its reservation.
    /// Returns its slot and the record of the now empty slot, to announce.
    pub fn detach_device_by_serial(&mut self, serial: &str) -> (r: Option<(u8, ChildDeviceInfo)>)
        requires
            old(self).wf(),
        ensures
            final(self).wf(),
            detach_post(*old(self), serial@, *final(self), r),
    {
        match self.slot_of_serial(serial) {
            Some(i) => {
                let slot_index = match &self.slots[i] {
                    Some(entry) => entry.slot_index,
                    None => 0,
                };
                let disconnected = ChildDeviceInfo::disconnected(slot_index);
                let ghost before = *self;
                self.slots[i] = None;
                assert(slots_same_except(before, *self, i as int));
                Some((slot_index, disconnected))
            },
            None => None,
        }
    }

    /// The first slot holding the device `serial`, if any.
    fn slot_of_serial(&self, serial: &str) -> (r: Option<usize>)
        ensures
            match r {
                Some(i) => is_first_with_serial(self.slots@, serial@, i as int),
                None => forall|i: int| !is_first_with_serial(self.slots@, serial@, i),
            },
    {
        let key = serial.to_owned();
        let mut i: usize = 0;
        while i < MAX_CHILD_SLOTS
            invariant
                i <= 8,
                self.slots@.len() == 8,
                key@ == serial@,
                forall|j: int| 0 <= j < i ==> !holds_serial(#[trigger] self.slots@[j], serial@),
            decreases 8 - i,
        {
            let found = match &self.slots[i] {
                Some(entry) => entry.serial == key,
                None => false,
            };
            if found {
                return Some(i);
            }
            i = i + 1;
        }
        None
    }

    /// Put `child` at `slot_index` (its port and serial taken from the record),
    /// or empty that slot; returns the record to announce, or nothing for a slot
    /// out of range.
    pub fn set_device_for_slot(&mut self, slot_index: u8, child: Option<ChildDeviceInfo>) -> (r:
        Option<ChildDeviceInfo>)
        requires
            old(self).wf(),
            child matches Some(c) ==> c.serial_len <= 32,
        ensures
            final(self).wf(),
            set_slot_post(*old(self), slot_index, child, *final(self), r),
    {
        let idx = slot_index as usize;
        if idx < MAX_CHILD_SLOTS {
            let ghost before = *self;
            match child {
                Some(c) => {
                    let serial = match c.serial_as_str() {
                        Ok(s) => s.to_owned(),
                        Err(_) => "".to_owned(),
                    };
                    self.slots[idx] = Some(
                        SlotEntry { slot_index, port: c.tcp_port, serial, child_info: c },
                    );
                    assert(slots_same_except(before, *self, idx as int));
                    Some(c)
                },
                None => {
                    self.slots[idx] = None;
                    assert(slots_same_except(before, *self, idx as int));
                    Some(ChildDeviceInfo::disconnected(slot_index))
                },
            }
        } else {
            None
        }
    }
}

/// A device that left finds its slot again: once a device that was not
/// attached is attached at a slot and then detached, attaching it again puts it
/// back at the same slot.
pub proof fn lemma_sticky_slot(
    s0: DockStateInner,
    serial: Seq<char>,
    s1: DockStateInner,
    slot: u8,
    port: u16,
    child: ChildDeviceInfo,
    s2: DockStateInner,
    r: Option<(u8, ChildDeviceInfo)>,
)
    requires
        s0.wf(),
        s1.wf(),
        forall|i: int| 0 <= i < 8 ==> !holds_serial(#[trigger] s0.slots@[i], serial),
        attach_post(s0, serial, s1, slot, port, child),
        detach_post(s1, serial, s2, r),
    ensures
        r matches Some((s, _)) && s == slot,
        spec_target_slot(s2, serial) == slot as int,
{
    let t = spec_target_slot(s0, serial);
    assert(0 <= t < 8) by {
        if exists|i: int| is_first_free(s0.slots@, i) {
            let i = choose|i: int| is_first_free(s0.slots@, i);
        }
    }
    assert forall|j: int| 0 <= j < slot as int implies !holds_serial(#[trigger] s1.slots@[j], serial) by {
        assert(s1.slots@[j] == s0.slots@[j]);
    }
    assert(is_first_with_serial(s1.slots@, serial, slot as int));
    assert(sticky_lookup(s1.sticky_map@, serial) == Some(slot));
    match r {
        Some((s, c)) => {
            let i = choose|i: int|
                is_first_with_serial(s1.slots@, serial, i) && s1.slots@[i]->0.slot_index == s
                    && s2.slots@[i] is None && slots_same_except(s1, s2, i)
                    && is_disconnected_record(c, s);
            if i < slot as int {
            } else if i > slot as int {
            }
            assert(i == slot as int);
        },
        None => {
            assert(!is_first_with_serial(s1.slots@, serial, slot as int));
        },
    }
}

/// What a slot reads back after it is set: once `set_device_for_slot` put a
/// record at a slot (or emptied it), that slot reports that record (or none),
/// and every other slot reports what it did before.
pub proof fn lemma_slot_reads_back(
    s0: DockStateInner,
    slot: u8,
    child: Option<ChildDeviceInfo>,
    s1: DockStateInner,
    r: Option<ChildDeviceInfo>,
    other: u8,
)
    requires
        set_slot_post(s0, slot, child, s1, r),
    ensures
        (slot as int) < 8 ==> slot_child(s1, slot) == child,
        other != slot ==> slot_child(s1, other) == slot_child(s0, other),
{
    if (other as int) < 8 && other != slot && (slot as int) < 8 {
        assert(s1.slots@[other as int] == s0.slots@[other as int]);
    }
}

/// An attached device is reported at the slot it was given, with the record
/// that announced it; the other slots report what they did before.
pub proof fn lemma_attached_reads_back(
    s0: DockStateInner,
    serial: Seq<char>,
    s1: DockStateInner,
    slot: u8,
    port: u16,
    child: ChildDeviceInfo,
    other: u8,
)
    requires
        attach_post(s0, serial, s1, slot, port, child),
    ensures
        slot_child(s1, slot) == Some(child),
        other != slot ==> slot_child(s1, other) == slot_child(s0, other),
{
    let t = spec_target_slot(s0, serial);
    assert(0 <= t < 8) by {
        if exists|i: int| is_first_free(s0.slots@, i) {
            let i = choose|i: int| is_first_free(s0.slots@, i);
        }
    }
    if (other as int) < 8 && other != slot {
        assert(s1.slots@[other as int] == s0.slots@[other as int]);
    }
}

/// A detached device's slot reports nothing; the other slots report what
/// they did before.
pub proof fn lemma_detached_reads_back(
    s0: DockStateInner,
    serial: Seq<char>,
    s1: DockStateInner,
    slot: u8,
    note: ChildDeviceInfo,
    other: u8,
)
    requires
        s0.wf(),
        detach_post(s0, serial, s1, Some((slot, note))),
    ensures
        slot_child(s1, slot) is None,
        other != slot ==> slot_child(s1, other) == slot_child(s0, other),
{
    let i = choose|i: int|
        is_first_with_serial(s0.slots@, serial, i) && s0.slots@[i]->0.slot_index == slot
            && s1.slots@[i] is None && slots_same_except(s0, s1, i) && is_disconnected_record(note, slot);
    assert(i == slot as int);
    if (other as int) < 8 && other != slot {
        assert(s1.slots@[other as int] == s0.slots@[other as int]);
    }
}

/// Attaching honours a reservation in any state: when the slot reserved for the
/// serial is a slot below 8 that is free, the device is attached there.
/// Otherwise it goes to the lowest free slot, or slot 0 when every slot is
/// taken. Its port is the secondary port plus its slot, saturating at 65535,
/// and the slot is reserved for the serial from then on.
pub proof fn lemma_attach_honours_reservation(
    s0: DockStateInner,
    serial: Seq<char>,
    s1: DockStateInner,
    slot: u8,
    port: u16,
    child: ChildDeviceInfo,
)
    requires
        attach_post(s0, serial, s1, slot, port, child),
    ensures
        (slot as int) < 8,
        (sticky_lookup(s0.sticky_map@, serial) matches Some(r) && (r as int) < 8
            && s0.slots@[r as int] is None) ==> slot == sticky_lookup(s0.sticky_map@, serial)->0,
        !(sticky_lookup(s0.sticky_map@, serial) matches Some(r) && (r as int) < 8
            && s0.slots@[r as int] is None) ==> if exists|j: int| 0 <= j < 8 && s0.slots@[j] is None {
            s0.slots@[slot as int] is None && forall|j: int| 0 <= j < slot ==> s0.slots@[j] is Some
        } else {
            slot == 0
        },
        port as int == if s0.config.secondary_port + slot > 65535 {
            65535
        } else {
            s0.config.secondary_port + slot
        },
        sticky_lookup(s1.sticky_map@, serial) == Some(slot),
{
    if exists|i: int| is_first_free(s0.slots@, i) {
        let i = choose|i: int| is_first_free(s0.slots@, i);
        assert(0 <= i < 8);
    } else {
        assert forall|j: int| 0 <= j < 8 implies s0.slots@[j] is Some by {
            if s0.slots@[j] is None {
                let k = choose|k: int| 0 <= k <= j && s0.slots@[k] is None && forall|m: int|
                    0 <= m < k ==> s0.slots@[m] is Some;
                assert(is_first_free(s0.slots@, k));
            }
        }
    }
}

} // verus!
