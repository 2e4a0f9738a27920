//! The primary dock port (TCP 5343) of the server: how each received frame is
//! handled, what each feature query is answered, and the per-connection
//! keepalive and hotplug state.

use vstd::prelude::*;
use vstd::string::StringSliceAdditionalSpecFns;
use vstd::utf8::encode_utf8;

use crate::bufops::{min_usize, splice, write_bytes, zeros};
use crate::constants::{PRODUCT_ID_NETWORK_DOCK, VENDOR_ID_ELGATO};
use crate::cora::{frame_bytes, CoraFrame, CoraHeader, CoraHidOp};
use crate::dock::{active_children, DockStateInner, ServerMode, SlotEntry};
use crate::keepalive::{ack_header, ack_payload, build_keepalive_ack_vec, is_keepalive_probe, spec_keepalive_probe};
use crate::session::KeepaliveTimer;
use crate::le::{le_u16, u16_to_le};
use crate::replies::{ack_bytes, ack_frame, frame_wants_ack, push_frame, push_header, result_frame, result_header, wants_ack};
use crate::reports::{build_device_info_payload, build_firmware_version_payload, build_mac_address_payload, build_serial_number_payload, child_payload_bytes, device_info_bytes, firmware_version_bytes, mac_address_bytes, parse_primary_query, serial_number_bytes, spec_command_code, spec_primary_query, ChildDeviceInfo, PrimaryFeatureCommand};

verus! {

/// What the primary port does with a received frame.
pub enum PrimaryPlan {
    /// Send these bytes.
    Send(Vec<u8>),
    /// Direct mode: write the payload to the USB device (when there is one),
    /// then send the acknowledgement, if any.
    ForwardWrite(Option<Vec<u8>>),
    /// Direct mode: send the payload to the USB device as a feature report (when
    /// there is one), then send the acknowledgement, if any.
    ForwardSetReport(Option<Vec<u8>>),
    /// Answer this feature query with `primary_query_response`.
    Query(PrimaryFeatureCommand),
    /// Nothing to do.
    Ignore,
}

/// A direct-mode image write: a Write whose payload does not start with 0x03 or 0x01.
pub open spec fn is_direct_write(h: CoraHeader, p: Seq<u8>) -> bool {
    h.hid_op == CoraHidOp::Write && p.len() > 0 && p[0] != 0x03 && p[0] != 0x01
}

/// Decide what to do with a frame received on the primary port: acknowledge
/// probes; in direct mode forward image writes and feature reports to the
/// device; answer feature queries; ignore the rest.
pub fn plan_primary_frame(frame: &CoraFrame, mode: ServerMode) -> (r: PrimaryPlan)
    ensures
        ({
            let h = frame.header;
            let p = frame.payload@;
            if let Some(c) = spec_keepalive_probe(p) {
                r matches PrimaryPlan::Send(v) && v@ == frame_bytes(
                    ack_header(h.message_id),
                    ack_payload(c),
                )
            } else if mode == ServerMode::Direct && is_direct_write(h, p) {
                r matches PrimaryPlan::ForwardWrite(a) && if wants_ack(h) {
                    a matches Some(v) && v@ == ack_bytes(h, p, 0x02)
                } else {
                    a is None
                }
            } else if mode == ServerMode::Direct && h.hid_op == CoraHidOp::SendReport {
                r matches PrimaryPlan::ForwardSetReport(a) && if wants_ack(h) {
                    a matches Some(v) && v@ == ack_bytes(h, p, 0x03)
                } else {
                    a is None
                }
            } else {
                match spec_primary_query(p) {
                    Some(cmd) => r == PrimaryPlan::Query(cmd),
                    None => r is Ignore,
                }
            }
        }),
{
    if let Some(conn_id) = is_keepalive_probe(frame) {
        return PrimaryPlan::Send(build_keepalive_ack_vec(conn_id, frame.header.message_id));
    }
    if mode == ServerMode::Direct {
        if frame.header.hid_op == CoraHidOp::Write && frame.payload.len() > 0 && frame.payload[0]
            != 0x03 && frame.payload[0] != 0x01 {
            let ack = if frame_wants_ack(frame) {
                Some(ack_frame(frame, 0x02))
            } else {
                None
            };
            return PrimaryPlan::ForwardWrite(ack);
        }
        if frame.header.hid_op == CoraHidOp::SendReport {
            let ack = if frame_wants_ack(frame) {
                Some(ack_frame(frame, 0x03))
            } else {
                None
            };
            return PrimaryPlan::ForwardSetReport(ack);
        }
    }
    match parse_primary_query(frame.payload) {
        Some(cmd) => PrimaryPlan::Query(cmd),
        None => PrimaryPlan::Ignore,
    }
}

/// What the attached USB device says about itself (direct mode).
pub struct UsbIdentity<'a> {
    pub vendor_id: u16,
    pub product_id: u16,
    pub serial_number: &'a str,
}

/// The opcodes that the dock answers itself even in direct mode.
pub open spec fn is_dock_opcode(x: u8) -> bool {
    x == 0x87 || x == 0x8f || x == 0x1a
}

/// A query for `cmd` is answered from the USB device's own feature report:
/// direct mode, a device, and an opcode the dock does not answer itself.
pub open spec fn spec_needs_usb_report(cmd: PrimaryFeatureCommand, mode: ServerMode, has_device: bool) -> bool {
    mode == ServerMode::Direct && has_device && (cmd matches PrimaryFeatureCommand::Other(x)
        && !is_dock_opcode(x))
}

/// Whether a query for `cmd` must first read the USB device's feature report.
pub fn needs_usb_report(cmd: PrimaryFeatureCommand, mode: ServerMode, has_device: bool) -> (r: bool)
    ensures
        r == spec_needs_usb_report(cmd, mode, has_device),
{
    match cmd {
        PrimaryFeatureCommand::Other(x) => mode == ServerMode::Direct && has_device && !(x == 0x87
            || x == 0x8f || x == 0x1a),
        _ => false,
    }
}

/// The child record answered for a query on `slot`: that of the device at the
/// slot, or the record of an empty slot.
pub open spec fn slot_child_record(slots: Seq<Option<SlotEntry>>, slot: u8) -> Seq<u8> {
    if (slot as int) < 8 && slots[slot as int] is Some {
        child_payload_bytes(slots[slot as int]->0.child_info, false, slot)
    } else {
        seq![0x03u8, 0x1cu8, 124u8, 0u8] + zeros(124)
    }
}

/// The copy of a USB feature report into the answer to opcode `x`: a report
/// that starts `03 x` replaces the answer's start, one that starts with `x`
/// goes after the 0x03, any other after `03 x`.
pub open spec fn usb_report_payload(x: u8, report: Option<Seq<u8>>) -> Seq<u8> {
    let base = seq![0x03u8, x] + zeros(1022);
    match report {
        Some(d) => if d.len() >= 2 && d[0] == 0x03 && d[1] == x {
            splice(base, 0, d.take(if d.len() < 1024 { d.len() as int } else { 1024 }))
        } else if d.len() > 0 && d[0] == x {
            splice(base, 1, d.take(if d.len() < 1023 { d.len() as int } else { 1023 }))
        } else if d.len() > 0 {
            splice(base, 2, d.take(if d.len() < 1022 { d.len() as int } else { 1022 }))
        } else {
            base
        },
        None => base,
    }
}

/// The 1024-byte answer buffer of a primary feature query.
pub open spec fn primary_payload(
    cmd: PrimaryFeatureCommand,
    query: Seq<u8>,
    mode: ServerMode,
    st: DockStateInner,
    usb: Option<(u16, u16, Seq<u8>)>,
    ipv4: Option<Seq<u8>>,
    report: Option<Seq<u8>>,
) -> Seq<u8> {
    match cmd {
        PrimaryFeatureCommand::GetDeviceInfo => match usb {
            Some((vid, pid, _)) if mode == ServerMode::Direct => device_info_bytes(vid, pid)
                + zeros(1008),
            _ => device_info_bytes(VENDOR_ID_ELGATO, PRODUCT_ID_NETWORK_DOCK) + zeros(1008),
        },
        PrimaryFeatureCommand::GetFirmwareVersion => firmware_version_bytes(
            encode_utf8(st.config.firmware_version@),
        ) + zeros(1008),
        PrimaryFeatureCommand::GetSerialNumber => {
            let s = match usb {
                Some((_, _, sn)) if mode == ServerMode::Direct => serial_number_bytes(sn),
                _ => serial_number_bytes(encode_utf8(st.config.serial_number@)),
            };
            s + zeros((1024 - s.len()) as nat)
        },
        PrimaryFeatureCommand::GetMacAddress => mac_address_bytes(st.config.mac_address@) + zeros(
            1014,
        ),
        PrimaryFeatureCommand::GetChildDeviceInfo => slot_child_record(
            st.slots@,
            if query.len() >= 3 {
                query[2]
            } else {
                0
            },
        ) + zeros(896),
        PrimaryFeatureCommand::Other(x) => if x == 0x87 {
            let addr = match ipv4 {
                Some(ip) => ip + seq![255u8, 255u8, 255u8, 0u8] + ip,
                None => zeros(12),
            };
            seq![0x03u8, 0x87u8, 0x01u8, 0x01u8] + addr + le_u16(st.config.primary_port) + zeros(
                1006,
            )
        } else if is_dock_opcode(x) || !(mode == ServerMode::Direct && usb is Some) {
            seq![0x03u8, x] + zeros(1022)
        } else {
            usb_report_payload(x, report)
        },
    }
}

/// The length of the answer to a query: 128 bytes for child info, else 1024
/// when the query held at least 1024 bytes, else 128.
pub open spec fn primary_response_len(cmd: PrimaryFeatureCommand, query_len: nat) -> int {
    if cmd == PrimaryFeatureCommand::GetChildDeviceInfo {
        128
    } else if query_len >= 1024 {
        1024
    } else {
        128
    }
}

/// Copy a USB feature report into the answer buffer of opcode `x`.
fn copy_usb_report(resp: &mut [u8; 1024], x: u8, data: &[u8])
    requires
        old(resp)@ == seq![0x03u8, x] + zeros(1022),
    ensures
        final(resp)@ == usb_report_payload(x, Some(data@)),
{
    if data.len() >= 2 && data[0] == 0x03 && data[1] == x {
        let n = min_usize(data.len(), 1024);
        write_bytes(resp, 0, &data[0..n]);
    } else if data.len() > 0 && data[0] == x {
        let n = min_usize(data.len(), 1023);
        write_bytes(resp, 1, &data[0..n]);
    } else if data.len() > 0 {
        let n = min_usize(data.len(), 1022);
        write_bytes(resp, 2, &data[0..n]);
    }
}

/// The answer of the primary port to a feature query for `cmd`: a RESULT frame
/// with the request's operation and message id, carrying the first
/// `primary_response_len` bytes of `primary_payload`. `usb_report` is the
/// device's feature report, read when `needs_usb_report` says so.
pub fn primary_query_response(
    frame: &CoraFrame,
    cmd: PrimaryFeatureCommand,
    mode: ServerMode,
    state: &DockStateInner,
    usb: &Option<UsbIdentity>,
    local_ipv4: Option<[u8; 4]>,
    usb_report: Option<&[u8]>,
) -> (r: Vec<u8>)
    ensures
        r@ == frame_bytes(
            result_header(frame.header),
            primary_payload(
                cmd,
                frame.payload@,
                mode,
                *state,
                match usb {
                    Some(u) => Some((u.vendor_id, u.product_id, u.serial_number.spec_bytes())),
                    None => None,
                },
                match local_ipv4 {
                    Some(ip) => Some(ip@),
                    None => None,
                },
                match usb_report {
                    Some(d) => Some(d@),
                    None => None,
                },
            ).take(primary_response_len(cmd, frame.payload@.len())),
        ),
{
    let mut resp = [0u8; 1024];
    resp[0] = 0x03;
    resp[1] = cmd.as_u8();
    let ghost base = resp@;
    assert(base =~= seq![0x03u8, spec_command_code(cmd)] + zeros(1022));
    let direct = mode == ServerMode::Direct;
    let mut custom_len: usize = 0;
    match cmd {
        PrimaryFeatureCommand::GetDeviceInfo => {
            match (direct, usb) {
                (true, Some(dev)) => {
                    let _ = build_device_info_payload(dev.vendor_id, dev.product_id, &mut resp);
                },
                _ => {
                    let _ = build_device_info_payload(
                        VENDOR_ID_ELGATO,
                        PRODUCT_ID_NETWORK_DOCK,
                        &mut resp,
                    );
                },
            }
        },
        PrimaryFeatureCommand::GetFirmwareVersion => {
            let _ = build_firmware_version_payload(state.config.firmware_version.as_str(), &mut resp);
        },
        PrimaryFeatureCommand::GetSerialNumber => {
            match (direct, usb) {
                (true, Some(dev)) => {
                    let _ = build_serial_number_payload(dev.serial_number, &mut resp);
                },
                _ => {
                    let _ = build_serial_number_payload(state.config.serial_number.as_str(), &mut resp);
                },
            }
        },
        PrimaryFeatureCommand::GetMacAddress => {
            let _ = build_mac_address_payload(state.config.mac_address, &mut resp);
        },
        PrimaryFeatureCommand::GetChildDeviceInfo => {
            let requested_slot = if frame.payload.len() >= 3 {
                frame.payload[2]
            } else {
                0
            };
            let child = state.child_device_at(requested_slot);
            let mut p = [0u8; 128];
            child.build_payload(false, requested_slot, &mut p);
            assert(p@ =~= slot_child_record(state.slots@, requested_slot));
            write_bytes(&mut resp, 0, &p);
            custom_len = 128;
        },
        PrimaryFeatureCommand::Other(x) => {
            if x == 0x87 {
                resp[2] = 0x01;
                resp[3] = 0x01;
                if let Some(ip) = local_ipv4 {
                    write_bytes(&mut resp, 4, &ip);
                    let mask: [u8; 4] = [255, 255, 255, 0];
                    write_bytes(&mut resp, 8, &mask);
                    write_bytes(&mut resp, 12, &ip);
                    assert(mask@ =~= seq![255u8, 255u8, 255u8, 0u8]);
                }
                let port = u16_to_le(state.config.primary_port);
                write_bytes(&mut resp, 16, &port);
            } else if x == 0x8f || x == 0x1a {
                resp[0] = 0x03;
                resp[1] = x;
            } else {
                resp[0] = 0x03;
                resp[1] = x;
                if direct && usb.is_some() {
                    if let Some(data) = usb_report {
                        assert(resp@ =~= seq![0x03u8, x] + zeros(1022));
                        copy_usb_report(&mut resp, x, data);
                    }
                }
            }
        },
    }
    let ghost usb_view = match usb {
        Some(u) => Some((u.vendor_id, u.product_id, u.serial_number.spec_bytes())),
        None => None,
    };
    let ghost ip_view = match local_ipv4 {
        Some(ip) => Some(ip@),
        None => None,
    };
    let ghost report_view = match usb_report {
        Some(d) => Some(d@),
        None => None,
    };
    assert(resp@ =~= primary_payload(
        cmd,
        frame.payload@,
        mode,
        *state,
        usb_view,
        ip_view,
        report_view,
    ));
    let resp_len: usize = if custom_len == 128 {
        128
    } else if frame.payload.len() >= 1024 {
        1024
    } else {
        128
    };
    result_frame(&frame.header, &resp[0..resp_len])
}

/// The push frame that announces a child record at its own slot.
pub fn hotplug_push_frame(child: &ChildDeviceInfo) -> (r: Vec<u8>)
    ensures
        r@ == frame_bytes(push_header(), child_payload_bytes(*child, true, child.slot_index)),
{
    let mut payload = [0u8; 128];
    child.build_payload(true, child.slot_index, &mut payload);
    push_frame(&payload)
}

/// The per-connection state of the primary port.
pub struct PrimarySession {
    pub keepalive: KeepaliveTimer,
    pub mode: ServerMode,
    pub has_sent_initial_hotplug: bool,
}

impl PrimarySession {
    /// A fresh connection: keepalive from message 1, no hotplug sent yet.
    pub fn new(connection_id: u8, mode: ServerMode) -> (r: PrimarySession)
        ensures
            r.keepalive.connection_id == connection_id,
            r.keepalive.message_seq == 1,
            r.mode == mode,
            !r.has_sent_initial_hotplug,
    {
        PrimarySession { keepalive: KeepaliveTimer::new(connection_id), mode, has_sent_initial_hotplug: false }
    }

    /// After answering `cmd`: the first watchdog query (0x1a) in dock mode
    /// announces every active child; later ones, and other queries, nothing.
    pub fn hotplug_after_query(&mut self, cmd: PrimaryFeatureCommand, state: &DockStateInner) -> (r:
        Vec<Vec<u8>>)
        ensures
            ({
                let fire = cmd == PrimaryFeatureCommand::Other(0x1a) && old(self).mode
                    == ServerMode::Dock && !old(self).has_sent_initial_hotplug;
                &&& final(self).has_sent_initial_hotplug == (old(self).has_sent_initial_hotplug
                    || (cmd == PrimaryFeatureCommand::Other(0x1a) && old(self).mode
                    == ServerMode::Dock))
                &&& !fire ==> r@.len() == 0
                &&& fire ==> r@.len() == active_children(state.slots@).len() && forall|i: int|
                    0 <= i < r@.len() ==> #[trigger] r@[i]@ == frame_bytes(
                        push_header(),
                        child_payload_bytes(
                            active_children(state.slots@)[i],
                            true,
                            active_children(state.slots@)[i].slot_index,
                        ),
                    )
            }),
            final(self).keepalive == old(self).keepalive,
            final(self).mode == old(self).mode,
    {
        let mut r: Vec<Vec<u8>> = Vec::new();
        let is_watchdog = match cmd {
            PrimaryFeatureCommand::Other(x) => x == 0x1a,
            _ => false,
        };
        if is_watchdog && self.mode == ServerMode::Dock {
            let already = self.has_sent_initial_hotplug;
            self.has_sent_initial_hotplug = true;
            if !already {
                let children = state.all_active_children();
                let mut i: usize = 0;
                while i < children.len()
                    invariant
                        i <= children@.len(),
                        children@ == active_children(state.slots@),
                        r@.len() == i,
                        forall|k: int|
                            0 <= k < i ==> #[trigger] r@[k]@ == frame_bytes(
                                push_header(),
                                child_payload_bytes(children@[k], true, children@[k].slot_index),
                            ),
                    decreases children.len() - i,
                {
                    r.push(hotplug_push_frame(&children[i]));
                    i = i + 1;
                }
            }
        }
        r
    }
}

/// The device-info answer (0x80) presents the device a client talks to: in
/// direct mode with a USB Stream Deck attached, bytes 12..16 of the answer are
/// that device's vendor id and product id, little-endian; otherwise they are
/// Elgato's vendor id 0x0fd9 and the Network Dock's product id 0xffff. The
/// answer is a RESULT frame of 128 bytes (1024 for a query of 1024 bytes or
/// more) that starts `03 80`.
pub proof fn lemma_device_info_presents_the_device(
    request: CoraHeader,
    query: Seq<u8>,
    mode: ServerMode,
    st: DockStateInner,
    usb: Option<(u16, u16, Seq<u8>)>,
    ipv4: Option<Seq<u8>>,
    report: Option<Seq<u8>>,
)
    ensures
        ({
            let cmd = PrimaryFeatureCommand::GetDeviceInfo;
            let payload = primary_payload(cmd, query, mode, st, usb, ipv4, report).take(
                primary_response_len(cmd, query.len()),
            );
            let answer = frame_bytes(result_header(request), payload);
            let vid: int = match usb {
                Some((v, _, _)) => if mode == ServerMode::Direct { v as int } else { 0x0fd9 },
                None => 0x0fd9,
            };
            let pid: int = match usb {
                Some((_, p, _)) => if mode == ServerMode::Direct { p as int } else { 0xffff },
                None => 0xffff,
            };
            &&& answer.len() == 16 + (if query.len() >= 1024 { 1024int } else { 128 })
            &&& answer[16] == 0x03 && answer[17] == 0x80
            &&& answer[28] as int == vid % 256 && answer[29] as int == vid / 256
            &&& answer[30] as int == pid % 256 && answer[31] as int == pid / 256
        }),
{
    let cmd = PrimaryFeatureCommand::GetDeviceInfo;
    let full = primary_payload(cmd, query, mode, st, usb, ipv4, report);
    let payload = full.take(primary_response_len(cmd, query.len()));
    let h = crate::cora::with_payload_len(result_header(request), payload.len() as u32);
    assert(crate::cora::header_bytes(h).len() == 16);
    let answer = frame_bytes(result_header(request), payload);
    assert(answer == crate::cora::header_bytes(h) + payload);
    assert forall|i: int| 0 <= i < payload.len() implies answer[16 + i] == payload[i] by {}
    assert(full.len() == 1024);
    assert(payload[12] == full[12] && payload[13] == full[13]);
    assert(payload[14] == full[14] && payload[15] == full[15]);
}

/// The primary port answers the identity queries with the dock's own
/// configuration (in direct mode with a device, the serial is the device's):
/// to 0x83 the first (at most 8) bytes of the firmware string from offset 8;
/// to 0x84 the serial's length (at most 32) at offset 3 and its bytes from
/// offset 4; to 0x85 the MAC address at offsets 4..10. To 0x1c it answers the
/// record of the device at the requested slot (byte 2 of the query, else 0),
/// or a record whose status byte 4 is 0 when none is attached there.
pub proof fn lemma_primary_identity_answers(
    query: Seq<u8>,
    mode: ServerMode,
    st: DockStateInner,
    usb: Option<(u16, u16, Seq<u8>)>,
    ipv4: Option<Seq<u8>>,
    report: Option<Seq<u8>>,
)
    ensures
        ({
            let fw = primary_payload(PrimaryFeatureCommand::GetFirmwareVersion, query, mode, st, usb, ipv4, report);
            let f = encode_utf8(st.config.firmware_version@);
            let n: int = if f.len() < 8 { f.len() as int } else { 8 };
            &&& fw.len() == 1024
            &&& fw[0] == 0x03 && fw[1] == 0x83
            &&& forall|i: int| 0 <= i < n ==> fw[8 + i] == f[i]
            &&& forall|i: int| 2 <= i < 8 || 8 + n <= i < 1024 ==> fw[i] == 0
        }),
        ({
            let sn = primary_payload(PrimaryFeatureCommand::GetSerialNumber, query, mode, st, usb, ipv4, report);
            let s: Seq<u8> = match usb {
                Some((_, _, d)) => if mode == ServerMode::Direct { d } else { encode_utf8(st.config.serial_number@) },
                None => encode_utf8(st.config.serial_number@),
            };
            let n: int = if s.len() < 32 { s.len() as int } else { 32 };
            &&& sn.len() == 1024
            &&& sn[0] == 0x03 && sn[1] == 0x84 && sn[3] as int == n
            &&& forall|i: int| 0 <= i < n ==> sn[4 + i] == s[i]
        }),
        ({
            let m = primary_payload(PrimaryFeatureCommand::GetMacAddress, query, mode, st, usb, ipv4, report);
            &&& m.len() == 1024
            &&& m[0] == 0x03 && m[1] == 0x85
            &&& forall|i: int| 0 <= i < 6 ==> m[4 + i] == st.config.mac_address@[i]
        }),
        ({
            let c = primary_payload(PrimaryFeatureCommand::GetChildDeviceInfo, query, mode, st, usb, ipv4, report);
            let slot: u8 = if query.len() >= 3 { query[2] } else { 0 };
            &&& c.len() == 1024
            &&& match crate::dock::slot_child(st, slot) {
                Some(child) => c.take(128) == child_payload_bytes(child, false, slot),
                None => c[0] == 0x03 && c[1] == 0x1c && c[4] == 0,
            }
        }),
{
    let c = primary_payload(PrimaryFeatureCommand::GetChildDeviceInfo, query, mode, st, usb, ipv4, report);
    let slot: u8 = if query.len() >= 3 { query[2] } else { 0 };
    assert(c.take(128) =~= slot_child_record(st.slots@, slot));
}

} // verus!
