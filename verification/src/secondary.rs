//! The child bridge port (TCP 5344) of the server: how each frame from a
//! client is handled, and how the answers built from the USB device look.

use vstd::prelude::*;
use vstd::string::StringSliceAdditionalSpecFns;

use crate::bufops::{write_bytes, zeros};
use crate::cora::{frame_bytes, CoraFrame, CoraHidOp};
use crate::deck_bridge::{is_feature_query, spec_report_id};
use crate::keepalive::{ack_header, ack_payload, build_keepalive_ack_vec, is_keepalive_ack, is_keepalive_probe, spec_keepalive_ack, spec_keepalive_probe};
use crate::models::{spec_model_name, StreamDeckModel};
use crate::replies::{ack_bytes, ack_frame, frame_wants_ack, reply_frame, reply_header, wants_ack};
use crate::reports::{build_device_info_payload, connected_record_bytes, device_info_bytes, lemma_field_reads_back, lemma_field_well_formed, parsed_child, ChildDeviceInfo};
use crate::le::lemma_u16_roundtrip;

verus! {

/// The TCP port announced in the child records of the bridge.
pub const BRIDGE_CHILD_PORT: u16 = 5344;

/// What the bridge knows about the USB Stream Deck it serves.
pub struct BridgeDevice<'a> {
    pub vendor_id: u16,
    pub product_id: u16,
    pub serial_number: &'a str,
    pub model: Option<StreamDeckModel>,
}

/// What the bridge does with a frame from its client.
pub enum SecondaryPlan {
    /// Send these bytes.
    Send(Vec<u8>),
    /// Read feature report `report_id` (of `length` bytes) from the device,
    /// then answer with `usb_report_reply`.
    UsbGetReport { report_id: u8, length: usize },
    /// Send the payload to the device as a feature report, then the acknowledgement, if any.
    UsbSetReport(Option<Vec<u8>>),
    /// Write the payload to the device's OUT endpoint, then the acknowledgement, if any.
    UsbWrite(Option<Vec<u8>>),
    /// Nothing to do.
    Ignore,
}

/// The name the bridge reports for its device: the model's, or "Stream Deck".
pub open spec fn bridge_model_name(model: Option<StreamDeckModel>) -> Seq<char> {
    match model {
        Some(m) => spec_model_name(m),
        None => "Stream Deck"@,
    }
}

/// The virtual answer of the bridge to a child info query (0x1c): the record of
/// the device at the requested slot (byte 2 of the query, else 0), padded to
/// 1024 bytes when the query held at least 1024.
pub open spec fn bridge_child_payload(
    query: Seq<u8>,
    vendor_id: u16,
    product_id: u16,
    name: Seq<u8>,
    serial: Seq<u8>,
) -> Seq<u8> {
    let slot = if query.len() >= 3 {
        query[2]
    } else {
        0
    };
    let rec = connected_record_bytes(false, slot, vendor_id, product_id, name, serial, BRIDGE_CHILD_PORT);
    if query.len() >= 1024 {
        rec + zeros(896)
    } else {
        rec
    }
}

/// The virtual answer of the bridge to a device info query (0x80), padded to
/// 1024 bytes when the query held at least 1024.
pub open spec fn bridge_device_info_payload(query: Seq<u8>, vendor_id: u16, product_id: u16) -> Seq<
    u8,
> {
    if query.len() >= 1024 {
        device_info_bytes(vendor_id, product_id) + zeros(1008)
    } else {
        device_info_bytes(vendor_id, product_id)
    }
}

/// The length of the feature report read from the device for a query.
pub open spec fn usb_report_len(query: Seq<u8>) -> int {
    if query.len() >= 1024 {
        1024
    } else {
        32
    }
}

/// The answer built from the device's feature report: the report itself, padded
/// to 1024 bytes for long queries; when reading failed, `03 id` and zeros.
pub open spec fn usb_reply_payload(report_id: u8, query: Seq<u8>, report: Option<Seq<u8>>) -> Seq<
    u8,
> {
    match report {
        Some(d) => if query.len() >= 1024 && d.len() < 1024 {
            d + zeros((1024 - d.len()) as nat)
        } else {
            d
        },
        None => seq![0x03u8, report_id] + zeros((usb_report_len(query) - 2) as nat),
    }
}

/// The display name of the device's model, or "Stream Deck".
fn model_name_of(model: Option<StreamDeckModel>) -> (r: &'static str)
    ensures
        r@ == bridge_model_name(model),
{
    match model {
        Some(m) => m.name(),
        None => "Stream Deck",
    }
}

/// Decide what the bridge does with a frame: acknowledge probes, drop
/// acknowledgements, answer child info and device info queries itself, pass
/// other queries, feature reports and writes to the device.
pub fn plan_secondary_frame(frame: &CoraFrame, device: &BridgeDevice) -> (r: SecondaryPlan)
    ensures
        ({
            let h = frame.header;
            let p = frame.payload@;
            if let Some(c) = spec_keepalive_probe(p) {
                r matches SecondaryPlan::Send(v) && v@ == frame_bytes(
                    ack_header(h.message_id),
                    ack_payload(c),
                )
            } else if spec_keepalive_ack(p) is Some {
                r is Ignore
            } else if is_feature_query(h, p) {
                if p.len() == 0 {
                    r is Ignore
                } else if spec_report_id(p) == 0x1c {
                    r matches SecondaryPlan::Send(v) && v@ == frame_bytes(
                        reply_header(h),
                        bridge_child_payload(
                            p,
                            device.vendor_id,
                            device.product_id,
                            vstd::utf8::encode_utf8(bridge_model_name(device.model)),
                            device.serial_number.spec_bytes(),
                        ),
                    )
                } else if spec_report_id(p) == 0x80 {
                    r matches SecondaryPlan::Send(v) && v@ == frame_bytes(
                        reply_header(h),
                        bridge_device_info_payload(p, device.vendor_id, device.product_id),
                    )
                } else {
                    r == SecondaryPlan::UsbGetReport {
                        report_id: spec_report_id(p),
                        length: usb_report_len(p) as usize,
                    }
                }
            } else if h.hid_op == CoraHidOp::SendReport {
                r matches SecondaryPlan::UsbSetReport(a) && if wants_ack(h) {
                    a matches Some(v) && v@ == ack_bytes(h, p, 0x03)
                } else {
                    a is None
                }
            } else {
                r matches SecondaryPlan::UsbWrite(a) && if wants_ack(h) {
                    a matches Some(v) && v@ == ack_bytes(h, p, 0x02)
                } else {
                    a is None
                }
            }
        }),
{
    if let Some(conn_id) = is_keepalive_probe(frame) {
        return SecondaryPlan::Send(build_keepalive_ack_vec(conn_id, frame.header.message_id));
    }
    if is_keepalive_ack(frame).is_some() {
        return SecondaryPlan::Ignore;
    }
    if frame.header.hid_op == CoraHidOp::GetReport || (frame.header.hid_op == CoraHidOp::Write
        && frame.payload.len() > 0 && frame.payload[0] == 0x03) {
        if frame.payload.len() == 0 {
            return SecondaryPlan::Ignore;
        }
        let report_id = if frame.payload[0] == 0x03 && frame.payload.len() >= 2 {
            frame.payload[1]
        } else {
            frame.payload[0]
        };
        let long = frame.payload.len() >= 1024;
        if report_id == 0x1c {
            let model_name = model_name_of(device.model);
            let requested_slot = if frame.payload.len() >= 3 {
                frame.payload[2]
            } else {
                0
            };
            let child = ChildDeviceInfo::connected(
                requested_slot,
                device.vendor_id,
                device.product_id,
                model_name,
                device.serial_number,
                BRIDGE_CHILD_PORT,
            );
            let mut buf = [0u8; 1024];
            let mut buf128 = [0u8; 128];
            child.build_payload(false, requested_slot, &mut buf128);
            write_bytes(&mut buf, 0, &buf128);
            let resp_len: usize = if long {
                1024
            } else {
                128
            };
            let payload = &buf[0..resp_len];
            assert(payload@ =~= bridge_child_payload(
                frame.payload@,
                device.vendor_id,
                device.product_id,
                model_name.spec_bytes(),
                device.serial_number.spec_bytes(),
            ));
            return SecondaryPlan::Send(reply_frame(&frame.header, payload));
        }
        if report_id == 0x80 {
            let mut buf = [0u8; 1024];
            let _ = build_device_info_payload(device.vendor_id, device.product_id, &mut buf);
            let resp_len: usize = if long {
                1024
            } else {
                16
            };
            let payload = &buf[0..resp_len];
            assert(payload@ =~= bridge_device_info_payload(
                frame.payload@,
                device.vendor_id,
                device.product_id,
            ));
            return SecondaryPlan::Send(reply_frame(&frame.header, payload));
        }
        let req_len: usize = if long {
            1024
        } else {
            32
        };
        return SecondaryPlan::UsbGetReport { report_id, length: req_len };
    }
    if frame.header.hid_op == CoraHidOp::SendReport {
        let ack = if frame_wants_ack(frame) {
            Some(ack_frame(frame, 0x03))
        } else {
            None
        };
        return SecondaryPlan::UsbSetReport(ack);
    }
    let ack = if frame_wants_ack(frame) {
        Some(ack_frame(frame, 0x02))
    } else {
        None
    };
    SecondaryPlan::UsbWrite(ack)
}

/// The answer to a feature query passed to the device: a reply (RESULT, with
/// VERBATIM when asked) carrying the report read, or, when reading failed,
/// `03 id` followed by zeros.
pub fn usb_report_reply(frame: &CoraFrame, report_id: u8, report: Option<Vec<u8>>) -> (r: Vec<u8>)
    ensures
        r@ == frame_bytes(
            reply_header(frame.header),
            usb_reply_payload(
                report_id,
                frame.payload@,
                match report {
                    Some(d) => Some(d@),
                    None => None,
                },
            ),
        ),
{
    let long = frame.payload.len() >= 1024;
    match report {
        Some(data) => {
            let mut data = data;
            if long && data.len() < 1024 {
                let ghost d0 = data@;
                while data.len() < 1024
                    invariant
                        data@.len() <= 1024,
                        d0.len() <= data@.len(),
                        data@ == d0 + zeros((data@.len() - d0.len()) as nat),
                    decreases 1024 - data@.len(),
                {
                    data.push(0);
                    assert(data@ =~= d0 + zeros((data@.len() - d0.len()) as nat));
                }
            }
            reply_frame(&frame.header, data.as_slice())
        },
        None => {
            let req_len: usize = if long {
                1024
            } else {
                32
            };
            let mut fallback = [0u8; 1024];
            fallback[0] = 0x03;
            fallback[1] = report_id;
            let payload = &fallback[0..req_len];
            assert(payload@ =~= seq![0x03u8, report_id] + zeros((req_len - 2) as nat));
            reply_frame(&frame.header, payload)
        },
    }
}

/// The bridge's answer to a child-info query (0x1c) presents the bridged
/// device: the record says "connected" (so `ChildDeviceInfo::parse` gives a
/// device), carries the vendor id and product id at bytes 26..30 and the bridge
/// port 5344 at bytes 126..128, and parsing it gives back the device's vendor
/// id, product id, the requested slot (byte 2 of the query, else 0), the port
/// 5344 and, for a serial without zero bytes, its first (at most 31) bytes.
pub proof fn lemma_bridge_child_record_presents_the_device(
    query: Seq<u8>,
    vendor_id: u16,
    product_id: u16,
    name: Seq<u8>,
    serial: Seq<u8>,
    parsed: ChildDeviceInfo,
)
    requires
        parsed_child(parsed, bridge_child_payload(query, vendor_id, product_id, name, serial)),
    ensures
        ({
            let b = bridge_child_payload(query, vendor_id, product_id, name, serial);
            let kept: int = if serial.len() < 31 { serial.len() as int } else { 31 };
            &&& b.len() >= 128
            &&& b[4] == 0x02
            &&& b[26] as int == vendor_id % 256 && b[27] as int == vendor_id / 256
            &&& b[28] as int == product_id % 256 && b[29] as int == product_id / 256
            &&& b[126] == 0xe0u8 && b[127] == 0x14u8
            &&& parsed.vendor_id == vendor_id
            &&& parsed.product_id == product_id
            &&& parsed.tcp_port == 5344
            &&& parsed.slot_index == (if query.len() >= 3 { query[2] } else { 0 })
            &&& (forall|j: int| 0 <= j < serial.len() ==> serial[j] != 0) ==> (parsed.serial_len
                == kept && parsed.serial_number@.take(kept) == serial.take(kept))
        }),
{
    let b = bridge_child_payload(query, vendor_id, product_id, name, serial);
    let slot = if query.len() >= 3 { query[2] } else { 0 };
    let rec = connected_record_bytes(false, slot, vendor_id, product_id, name, serial, BRIDGE_CHILD_PORT);
    assert(rec.len() == 128);
    assert forall|i: int| 0 <= i < 128 implies b[i] == rec[i] by {}
    let f = crate::reports::field_bytes(serial, 31);
    assert(rec.subrange(94, 126) =~= f);
    assert(b.subrange(94, 126) =~= f);
    lemma_u16_roundtrip(vendor_id);
    lemma_u16_roundtrip(product_id);
    lemma_u16_roundtrip(BRIDGE_CHILD_PORT);
    if forall|j: int| 0 <= j < serial.len() ==> serial[j] != 0 {
        lemma_field_well_formed(serial);
        lemma_field_reads_back(f, crate::reports::field_len(serial, 31));
        let kept: int = if serial.len() < 31 { serial.len() as int } else { 31 };
        assert(parsed.serial_number@.take(kept) =~= serial.take(kept));
    }
}

} // verus!
