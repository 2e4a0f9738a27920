//! The primary dock hub of a bare-metal board (TCP 5343): what it sends when a
//! client connects, and what it answers to each frame.

use vstd::prelude::*;
use vstd::string::StringSliceAdditionalSpecFns;

use crate::bufops::{splice, write_bytes, zeros};
use crate::constants::{PRODUCT_ID_NETWORK_DOCK, VENDOR_ID_ELGATO};
use crate::cora::{frame_bytes, CoraFlags, CoraFrame, CoraHeader, CoraHidOp};
use crate::keepalive::{ack_header, ack_payload, build_keepalive_ack_vec, build_keepalive_probe_vec, is_keepalive_probe, probe_header, probe_payload, spec_keepalive_probe};
use crate::le::{le_u16, u16_to_le};
use crate::replies::{push_frame, push_header};
use crate::reports::{build_cora_response_frame, build_device_info_payload, build_firmware_version_payload, build_mac_address_payload, build_serial_number_payload, child_payload_bytes, device_info_bytes, firmware_version_bytes, mac_address_bytes, parse_primary_query, serial_number_bytes, spec_primary_query, ChildDeviceInfo, PrimaryFeatureCommand};

verus! {

/// The header of the dock's answer to a query with message id `message_id`.
pub open spec fn response_header(message_id: u32) -> CoraHeader {
    CoraHeader {
        flags: CoraFlags(0x0100),
        hid_op: CoraHidOp::GetReport,
        reserved: 0,
        message_id,
        payload_len: 0,
    }
}

/// `i` is the first position in `cs` of a device at `slot`.
pub open spec fn is_first_at_slot(cs: Seq<ChildDeviceInfo>, slot: u8, i: int) -> bool {
    &&& 0 <= i < cs.len()
    &&& cs[i].slot_index == slot
    &&& forall|j: int| 0 <= j < i ==> cs[j].slot_index != slot
}

/// The first device of `cs` at `slot`, if any.
pub open spec fn spec_find_slot(cs: Seq<ChildDeviceInfo>, slot: u8) -> Option<int> {
    if exists|i: int| is_first_at_slot(cs, slot, i) {
        Some(choose|i: int| is_first_at_slot(cs, slot, i))
    } else {
        None
    }
}

/// The child record that answers a query for `slot`: that of the first device
/// at that slot, or the record of an empty slot.
pub open spec fn slot_record(cs: Seq<ChildDeviceInfo>, slot: u8) -> Seq<u8> {
    match spec_find_slot(cs, slot) {
        Some(i) => child_payload_bytes(cs[i], false, slot),
        None => seq![0x03u8, 0x1cu8, 124u8, 0u8] + zeros(124),
    }
}

/// The payload the hub answers a query for `cmd` with.
pub open spec fn hub_payload(
    cmd: PrimaryFeatureCommand,
    query: Seq<u8>,
    serial: Seq<u8>,
    firmware: Seq<u8>,
    mac: Seq<u8>,
    ip: Seq<u8>,
    primary_port: u16,
    children: Seq<ChildDeviceInfo>,
) -> Seq<u8> {
    match cmd {
        PrimaryFeatureCommand::GetDeviceInfo => device_info_bytes(
            VENDOR_ID_ELGATO,
            PRODUCT_ID_NETWORK_DOCK,
        ) + zeros(1008),
        PrimaryFeatureCommand::GetFirmwareVersion => firmware_version_bytes(firmware) + zeros(1008),
        PrimaryFeatureCommand::GetSerialNumber => {
            let s = serial_number_bytes(serial);
            s + zeros((1024 - s.len()) as nat)
        },
        PrimaryFeatureCommand::GetMacAddress => mac_address_bytes(mac) + zeros(1014),
        PrimaryFeatureCommand::GetChildDeviceInfo => slot_record(
            children,
            if query.len() >= 3 {
                query[2]
            } else {
                0
            },
        ),
        PrimaryFeatureCommand::Other(x) => if x == 0x87 {
            seq![0x03u8, 0x87u8, 0x01u8, 0x01u8] + ip + seq![255u8, 255u8, 255u8, 0u8] + ip
                + le_u16(primary_port) + zeros(1006)
        } else {
            seq![0x03u8, x] + zeros(1022)
        },
    }
}

/// The index of the first device in `cs` at `slot`, if any.
fn find_slot(cs: &[ChildDeviceInfo], slot: u8) -> (r: Option<usize>)
    ensures
        match r {
            Some(i) => spec_find_slot(cs@, slot) == Some(i as int),
            None => spec_find_slot(cs@, slot) is None,
        },
{
    let mut i: usize = 0;
    while i < cs.len()
        invariant
            i <= cs@.len(),
            forall|j: int| 0 <= j < i ==> cs@[j].slot_index != slot,
        decreases cs.len() - i,
    {
        if cs[i].slot_index == slot {
            assert(is_first_at_slot(cs@, slot, i as int));
            assert forall|k: int| is_first_at_slot(cs@, slot, k) implies k == i by {
                if k < i {
                } else if k > i {
                    assert(cs@[i as int].slot_index != slot);
                }
            }
            return Some(i);
        }
        i = i + 1;
    }
    None
}

/// The primary dock hub served on a board.
pub struct EmbeddedDockHub<'a> {
    pub serial: &'a str,
    pub firmware: &'a str,
    pub mac_address: [u8; 6],
    pub ip_address: [u8; 4],
    pub primary_port: u16,
    pub secondary_port: u16,
}

impl<'a> EmbeddedDockHub<'a> {
    /// A hub with the given identity and network settings.
    pub fn new(
        serial: &'a str,
        firmware: &'a str,
        mac_address: [u8; 6],
        ip_address: [u8; 4],
        primary_port: u16,
        secondary_port: u16,
    ) -> (r: EmbeddedDockHub<'a>)
        ensures
            r.serial == serial,
            r.firmware == firmware,
            r.mac_address == mac_address,
            r.ip_address == ip_address,
            r.primary_port == primary_port,
            r.secondary_port == secondary_port,
    {
        EmbeddedDockHub { serial, firmware, mac_address, ip_address, primary_port, secondary_port }
    }

    /// What the hub sends when a client connects: a keepalive probe (connection
    /// 1, message 1), then a hotplug push for every active child at its slot.
    pub fn greeting_frames(&self, active_children: &[ChildDeviceInfo]) -> (r: Vec<Vec<u8>>)
        ensures
            r@.len() == active_children@.len() + 1,
            r@[0]@ == frame_bytes(probe_header(1), probe_payload(1)),
            forall|i: int|
                0 <= i < active_children@.len() ==> #[trigger] r@[i + 1]@ == frame_bytes(
                    push_header(),
                    child_payload_bytes(active_children@[i], true, active_children@[i].slot_index),
                ),
    {
        let mut r: Vec<Vec<u8>> = Vec::new();
        r.push(build_keepalive_probe_vec(1, 1));
        let mut i: usize = 0;
        while i < active_children.len()
            invariant
                i <= active_children@.len(),
                r@.len() == i + 1,
                r@[0]@ == frame_bytes(probe_header(1), probe_payload(1)),
                forall|k: int|
                    0 <= k < i ==> #[trigger] r@[k + 1]@ == frame_bytes(
                        push_header(),
                        child_payload_bytes(active_children@[k], true, active_children@[k].slot_index),
                    ),
            decreases active_children.len() - i,
        {
            let child = &active_children[i];
            let mut hotplug_payload = [0u8; 128];
            child.build_payload(true, child.slot_index, &mut hotplug_payload);
            r.push(push_frame(&hotplug_payload));
            i = i + 1;
        }
        r
    }

    /// Handle one frame from the client and return the bytes to send back, if
    /// any: probes are acknowledged, feature queries answered with a RESULT
    /// GetReport frame of 1024 bytes (128 for child info), other frames ignored.
    pub fn handle_frame(&self, frame: &CoraFrame, active_children: &[ChildDeviceInfo]) -> (r:
        Option<Vec<u8>>)
        ensures
            ({
                let h = frame.header;
                let p = frame.payload@;
                if let Some(c) = spec_keepalive_probe(p) {
                    r matches Some(v) && v@ == frame_bytes(ack_header(h.message_id), ack_payload(c))
                } else {
                    match spec_primary_query(p) {
                        None => r is None,
                        Some(cmd) => r matches Some(v) && v@ == frame_bytes(
                            response_header(h.message_id),
                            hub_payload(
                                cmd,
                                p,
                                self.serial.spec_bytes(),
                                self.firmware.spec_bytes(),
                                self.mac_address@,
                                self.ip_address@,
                                self.primary_port,
                                active_children@,
                            ),
                        ),
                    }
                }
            }),
    {
        if let Some(conn_id) = is_keepalive_probe(frame) {
            return Some(build_keepalive_ack_vec(conn_id, frame.header.message_id));
        }
        let cmd = match parse_primary_query(frame.payload) {
            Some(c) => c,
            None => {
                return None;
            },
        };
        let mut resp = [0u8; 1024];
        resp[0] = 0x03;
        resp[1] = cmd.as_u8();
        let mut resp_len: usize = 1024;
        let ghost base = resp@;
        assert(base =~= seq![0x03u8, crate::reports::spec_command_code(cmd)] + zeros(1022));
        match cmd {
            PrimaryFeatureCommand::GetDeviceInfo => {
                let _ = build_device_info_payload(VENDOR_ID_ELGATO, PRODUCT_ID_NETWORK_DOCK, &mut resp);
            },
            PrimaryFeatureCommand::GetFirmwareVersion => {
                let _ = build_firmware_version_payload(self.firmware, &mut resp);
            },
            PrimaryFeatureCommand::GetSerialNumber => {
                let _ = build_serial_number_payload(self.serial, &mut resp);
            },
            PrimaryFeatureCommand::GetMacAddress => {
                let _ = build_mac_address_payload(self.mac_address, &mut resp);
            },
            PrimaryFeatureCommand::GetChildDeviceInfo => {
                let requested_slot = if frame.payload.len() >= 3 {
                    frame.payload[2]
                } else {
                    0
                };
                let mut p = [0u8; 128];
                match find_slot(active_children, requested_slot) {
                    Some(i) => {
                        active_children[i].build_payload(false, requested_slot, &mut p);
                    },
                    None => {
                        let empty = ChildDeviceInfo::disconnected(requested_slot);
                        empty.build_payload(false, requested_slot, &mut p);
                        assert(p@ =~= seq![0x03u8, 0x1cu8, 124u8, 0u8] + zeros(124));
                    },
                }
                write_bytes(&mut resp, 0, &p);
                resp_len = 128;
            },
            PrimaryFeatureCommand::Other(x) => {
                if x == 0x87 {
                    resp[2] = 0x01;
                    resp[3] = 0x01;
                    write_bytes(&mut resp, 4, &self.ip_address);
                    let mask: [u8; 4] = [255, 255, 255, 0];
                    write_bytes(&mut resp, 8, &mask);
                    write_bytes(&mut resp, 12, &self.ip_address);
                    let port = u16_to_le(self.primary_port);
                    write_bytes(&mut resp, 16, &port);
                    assert(mask@ =~= seq![255u8, 255u8, 255u8, 0u8]);
                } else {
                    resp[0] = 0x03;
                    resp[1] = x;
                }
            },
        }
        let payload = &resp[0..resp_len];
        assert(payload@ =~= hub_payload(
            cmd,
            frame.payload@,
            self.serial.spec_bytes(),
            self.firmware.spec_bytes(),
            self.mac_address@,
            self.ip_address@,
            self.primary_port,
            active_children@,
        ));
        let mut tx_buf = [0u8; 2048];
        let out_len = match build_cora_response_frame(frame.header.message_id, payload, &mut tx_buf) {
            Ok(n) => n,
            Err(_) => {
                return None;
            },
        };
        assert(tx_buf@.take(out_len as int) =~= frame_bytes(
            response_header(frame.header.message_id),
            payload@,
        ));
        Some(vstd::slice::slice_to_vec(&tx_buf[0..out_len]))
    }
}

/// The hub answers the identity queries with its own values, 1024 bytes each:
/// to 0x83 the first (at most 8) bytes of its firmware string from offset 8;
/// to 0x84 the length (at most 32) at offset 3 and the serial's first bytes
/// from offset 4; to 0x85 its MAC address at offsets 4..10; to 0x80 Elgato's
/// vendor id 0x0fd9 and the Network Dock's product id 0xffff at offsets 12..16.
/// Every answer starts with 0x03 and the query's opcode.
pub proof fn lemma_hub_identity_answers(
    query: Seq<u8>,
    serial: Seq<u8>,
    firmware: Seq<u8>,
    mac: Seq<u8>,
    ip: Seq<u8>,
    primary_port: u16,
    children: Seq<ChildDeviceInfo>,
)
    requires
        mac.len() == 6,
    ensures
        ({
            let fw = hub_payload(
                PrimaryFeatureCommand::GetFirmwareVersion,
                query,
                serial,
                firmware,
                mac,
                ip,
                primary_port,
                children,
            );
            let n: int = if firmware.len() < 8 { firmware.len() as int } else { 8 };
            &&& fw.len() == 1024
            &&& fw[0] == 0x03 && fw[1] == 0x83
            &&& forall|i: int| 0 <= i < n ==> fw[8 + i] == firmware[i]
            &&& forall|i: int| 2 <= i < 8 || 8 + n <= i < 1024 ==> fw[i] == 0
        }),
        ({
            let sn = hub_payload(
                PrimaryFeatureCommand::GetSerialNumber,
                query,
                serial,
                firmware,
                mac,
                ip,
                primary_port,
                children,
            );
            let n: int = if serial.len() < 32 { serial.len() as int } else { 32 };
            &&& sn.len() == 1024
            &&& sn[0] == 0x03 && sn[1] == 0x84 && sn[2] == 0 && sn[3] as int == n
            &&& forall|i: int| 0 <= i < n ==> sn[4 + i] == serial[i]
            &&& forall|i: int| 4 + n <= i < 1024 ==> sn[i] == 0
        }),
        ({
            let m = hub_payload(
                PrimaryFeatureCommand::GetMacAddress,
                query,
                serial,
                firmware,
                mac,
                ip,
                primary_port,
                children,
            );
            &&& m.len() == 1024
            &&& m[0] == 0x03 && m[1] == 0x85
            &&& forall|i: int| 0 <= i < 6 ==> m[4 + i] == mac[i]
        }),
        ({
            let d = hub_payload(
                PrimaryFeatureCommand::GetDeviceInfo,
                query,
                serial,
                firmware,
                mac,
                ip,
                primary_port,
                children,
            );
            &&& d.len() == 1024
            &&& d[0] == 0x03 && d[1] == 0x80
            &&& d[12] == 0xd9u8 && d[13] == 0x0fu8 && d[14] == 0xffu8 && d[15] == 0xffu8
        }),
{
}

} // verus!
