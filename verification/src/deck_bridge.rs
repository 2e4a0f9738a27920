//! The child Stream Deck bridge of a bare-metal board (TCP 5344): what it
//! answers to each frame, and what it pushes for surface events.

use vstd::prelude::*;
use vstd::string::StringSliceAdditionalSpecFns;
use vstd::utf8::encode_utf8;

use crate::bufops::{min_usize, splice, write_bytes, zeros};
use crate::cora::{frame_bytes, CoraFrame, CoraHeader, CoraHidOp};
use crate::le::u16_from_le;
use crate::keepalive::{ack_header, ack_payload, build_keepalive_ack_vec, is_keepalive_ack, is_keepalive_probe, spec_keepalive_ack, spec_keepalive_probe};
use crate::replies::{ack_bytes, ack_frame, frame_wants_ack, push_frame, push_header, reply_frame, reply_header, wants_ack};
use crate::reports::{build_device_info_payload, connected_record_bytes, device_info_bytes, ChildDeviceInfo};
use crate::surface::{encode_surface_event, surface_event_report, StreamDeckSurface, SurfaceEvent};

verus! {

/// What a surface reports about itself, as the bridge hands it to a client.
pub struct SurfaceIdentity<'a> {
    pub vendor_id: u16,
    pub product_id: u16,
    pub model_name: &'a str,
    pub serial_number: &'a str,
    pub firmware_version: &'a str,
}

/// The report id a feature query asks for: its second byte after a leading
/// 0x03, else its first byte.
pub open spec fn spec_report_id(p: Seq<u8>) -> u8 {
    if p[0] == 0x03 && p.len() >= 2 {
        p[1]
    } else {
        p[0]
    }
}

/// A frame is a feature query: a GetReport, or a Write whose payload starts with 0x03.
pub open spec fn is_feature_query(h: CoraHeader, p: Seq<u8>) -> bool {
    h.hid_op == CoraHidOp::GetReport || (h.hid_op == CoraHidOp::Write && p.len() > 0 && p[0]
        == 0x03)
}

/// The payload the child bridge answers a feature query with. Queries whose
/// payload holds 1024 bytes or more get 1024 bytes back, others 32, except
/// device info (16 bytes) and child info (the 128-byte record).
pub open spec fn deck_query_payload(
    report_id: u8,
    query_len: nat,
    firmware: Seq<u8>,
    serial: Seq<u8>,
    vendor_id: u16,
    product_id: u16,
    model_name: Seq<u8>,
    slot_index: u8,
    port: u16,
) -> Seq<u8> {
    let resp_len: int = if query_len >= 1024 {
        1024
    } else {
        32
    };
    let base = seq![report_id] + zeros(1023);
    if report_id == 0x05 {
        let l = if firmware.len() < 30 {
            firmware.len() as int
        } else {
            30
        };
        splice(base.update(1, l as u8), 6, firmware.take(l)).take(resp_len)
    } else if report_id == 0x06 {
        let l = if serial.len() < 30 {
            serial.len() as int
        } else {
            30
        };
        splice(base.update(1, l as u8), 2, serial.take(l)).take(resp_len)
    } else if report_id == 0x0b {
        base.update(1, 0x02u8).update(2, 0x30u8).update(3, 0x01u8).take(resp_len)
    } else if report_id == 0x80 {
        device_info_bytes(vendor_id, product_id)
    } else if report_id == 0x1c {
        connected_record_bytes(false, slot_index, vendor_id, product_id, model_name, serial, port)
    } else {
        base.update(0, 0x03u8).update(1, report_id).take(resp_len)
    }
}

/// A brightness report: `03 08` and the brightness.
pub open spec fn is_brightness_report(p: Seq<u8>) -> bool {
    p.len() >= 3 && p[0] == 0x03 && p[1] == 0x08
}

/// An image chunk: `02 07` (a key) or `02 0c` (the LCD strip), key index,
/// last-chunk flag, two bytes, the chunk index (little-endian), then the data.
pub open spec fn is_image_chunk(p: Seq<u8>) -> bool {
    p.len() >= 8 && p[0] == 0x02 && (p[1] == 0x07 || p[1] == 0x0c)
}

/// A frame that is neither a keepalive probe, nor an acknowledgement, nor a
/// feature query: a feature report or an output write.
pub open spec fn is_surface_frame(h: CoraHeader, p: Seq<u8>) -> bool {
    spec_keepalive_probe(p) is None && spec_keepalive_ack(p) is None && !is_feature_query(h, p)
}

/// The reply of the child bridge to a feature query for `report_id`.
pub fn deck_feature_reply(
    frame: &CoraFrame,
    report_id: u8,
    identity: &SurfaceIdentity,
    slot_index: u8,
    port: u16,
) -> (r: Vec<u8>)
    ensures
        r@ == frame_bytes(
            reply_header(frame.header),
            deck_query_payload(
                report_id,
                frame.payload@.len(),
                identity.firmware_version.spec_bytes(),
                identity.serial_number.spec_bytes(),
                identity.vendor_id,
                identity.product_id,
                identity.model_name.spec_bytes(),
                slot_index,
                port,
            ),
        ),
{
    let long = frame.payload.len() >= 1024;
    let mut resp = [0u8; 1024];
    let mut resp_len: usize = if long {
        1024
    } else {
        32
    };
    resp[0] = report_id;
    let ghost base = seq![report_id] + zeros(1023);
    assert(resp@ =~= base);
    if report_id == 0x05 {
        let fw = identity.firmware_version.as_bytes();
        let len = min_usize(fw.len(), 30);
        resp[1] = len as u8;
        write_bytes(&mut resp, 6, &fw[0..len]);
    } else if report_id == 0x06 {
        let sn = identity.serial_number.as_bytes();
        let len = min_usize(sn.len(), 30);
        resp[1] = len as u8;
        write_bytes(&mut resp, 2, &sn[0..len]);
    } else if report_id == 0x0b {
        resp[1] = 0x02;
        resp[2] = 0x30;
        resp[3] = 0x01;
    } else if report_id == 0x80 {
        let _ = build_device_info_payload(identity.vendor_id, identity.product_id, &mut resp);
        resp_len = 16;
    } else if report_id == 0x1c {
        let child = ChildDeviceInfo::connected(
            slot_index,
            identity.vendor_id,
            identity.product_id,
            identity.model_name,
            identity.serial_number,
            port,
        );
        let mut buf128 = [0u8; 128];
        child.build_payload(false, slot_index, &mut buf128);
        write_bytes(&mut resp, 0, &buf128);
        resp_len = 128;
    } else {
        resp[0] = 0x03;
        resp[1] = report_id;
    }
    let payload = &resp[0..resp_len];
    assert(payload@ =~= deck_query_payload(
        report_id,
        frame.payload@.len(),
        identity.firmware_version.spec_bytes(),
        identity.serial_number.spec_bytes(),
        identity.vendor_id,
        identity.product_id,
        identity.model_name.spec_bytes(),
        slot_index,
        port,
    ));
    reply_frame(&frame.header, payload)
}

/// The push frame that carries the input report of a surface event.
pub fn surface_event_frame(event: &SurfaceEvent) -> (r: Vec<u8>)
    ensures
        r@ == frame_bytes(push_header(), surface_event_report(*event)),
{
    let mut report = [0u8; 512];
    let report_len = encode_surface_event(event, &mut report);
    push_frame(&report[0..report_len])
}

/// A Stream Deck surface served to a client over the child port.
pub struct EmbeddedDeckBridge<'a, D: StreamDeckSurface> {
    pub surface: &'a mut D,
    pub slot_index: u8,
    pub port: u16,
}

impl<'a, D: StreamDeckSurface> EmbeddedDeckBridge<'a, D> {
    /// A bridge for `surface` at the given slot and port.
    pub fn new(surface: &'a mut D, slot_index: u8, port: u16) -> (r: EmbeddedDeckBridge<'a, D>)
        ensures
            r.slot_index == slot_index,
            r.port == port,
    {
        EmbeddedDeckBridge { surface, slot_index, port }
    }

    /// What the surface says about itself.
    fn identity(&self) -> (r: SurfaceIdentity<'_>)
        ensures
            r.vendor_id == old(self.surface).spec_vendor_id(),
            r.product_id == old(self.surface).spec_product_id(),
            r.model_name@ == old(self.surface).spec_model_name(),
            r.serial_number@ == old(self.surface).spec_serial_number(),
            r.firmware_version@ == old(self.surface).spec_firmware_version(),
    {
        SurfaceIdentity {
            vendor_id: self.surface.vendor_id(),
            product_id: self.surface.product_id(),
            model_name: self.surface.model_name(),
            serial_number: self.surface.serial_number(),
            firmware_version: self.surface.firmware_version(),
        }
    }

    /// Handle one frame from the client and return the bytes to send back, if
    /// any. Probes are acknowledged, acknowledgements dropped, feature queries
    /// answered from the surface's identity, brightness reports and image
    /// chunks handed to the surface and acknowledged when the client wants it.
    pub fn handle_incoming_frame(&mut self, frame: &CoraFrame) -> (r: Option<Vec<u8>>)
        requires
            !(frame.header.hid_op == CoraHidOp::GetReport && frame.payload@.len() == 0),
        ensures
            ({
                let h = frame.header;
                let p = frame.payload@;
                if let Some(c) = spec_keepalive_probe(p) {
                    r matches Some(v) && v@ == frame_bytes(ack_header(h.message_id), ack_payload(c))
                } else if spec_keepalive_ack(p) is Some {
                    r is None
                } else if is_feature_query(h, p) {
                    r matches Some(v) && v@ == frame_bytes(
                        reply_header(h),
                        deck_query_payload(
                            spec_report_id(p),
                            p.len(),
                            encode_utf8(old(self).surface.spec_firmware_version()),
                            encode_utf8(old(self).surface.spec_serial_number()),
                            old(self).surface.spec_vendor_id(),
                            old(self).surface.spec_product_id(),
                            encode_utf8(old(self).surface.spec_model_name()),
                            old(self).slot_index,
                            old(self).port,
                        ),
                    )
                } else if h.hid_op == CoraHidOp::SendReport {
                    if wants_ack(h) {
                        r matches Some(v) && v@ == ack_bytes(h, p, 0x03)
                    } else {
                        r is None
                    }
                } else {
                    if wants_ack(h) {
                        r matches Some(v) && v@ == ack_bytes(h, p, 0x02)
                    } else {
                        r is None
                    }
                }
            }),
            ({
                let h = frame.header;
                let p = frame.payload@;
                if is_surface_frame(h, p) && h.hid_op == CoraHidOp::SendReport
                    && is_brightness_report(p) {
                    D::brightness_set(*old(self).surface, *final(self).surface, p[2])
                } else if is_surface_frame(h, p) && h.hid_op != CoraHidOp::SendReport
                    && is_image_chunk(p) {
                    D::image_chunk_written(
                        *old(self).surface,
                        *final(self).surface,
                        p[2],
                        p[3] != 0,
                        u16_from_le(p[6], p[7]),
                        p.skip(8),
                    )
                } else {
                    *final(self).surface == *old(self).surface
                }
            }),
            final(self).slot_index == old(self).slot_index,
            final(self).port == old(self).port,
    {
        if let Some(conn_id) = is_keepalive_probe(frame) {
            return Some(build_keepalive_ack_vec(conn_id, frame.header.message_id));
        }
        if is_keepalive_ack(frame).is_some() {
            return None;
        }
        if frame.header.hid_op == CoraHidOp::GetReport || (frame.header.hid_op == CoraHidOp::Write
            && frame.payload.len() > 0 && frame.payload[0] == 0x03) {
            let report_id = if frame.payload[0] == 0x03 && frame.payload.len() >= 2 {
                frame.payload[1]
            } else {
                frame.payload[0]
            };
            assert(report_id == spec_report_id(frame.payload@));
            let slot_index = self.slot_index;
            let port = self.port;
            let identity = self.identity();
            let reply = deck_feature_reply(frame, report_id, &identity, slot_index, port);
            assert(reply@ == frame_bytes(
                reply_header(frame.header),
                deck_query_payload(
                    report_id,
                    frame.payload@.len(),
                    identity.firmware_version.spec_bytes(),
                    identity.serial_number.spec_bytes(),
                    identity.vendor_id,
                    identity.product_id,
                    identity.model_name.spec_bytes(),
                    slot_index,
                    port,
                ),
            ));
            return Some(reply);
        }
        if frame.header.hid_op == CoraHidOp::SendReport {
            if frame.payload.len() >= 3 && frame.payload[0] == 0x03 && frame.payload[1] == 0x08 {
                let brightness = frame.payload[2];
                self.surface.set_brightness(brightness);
            }
            if frame_wants_ack(frame) {
                return Some(ack_frame(frame, 0x03));
            }
            return None;
        }
        if frame.payload.len() >= 8 && frame.payload[0] == 0x02 && (frame.payload[1] == 0x07
            || frame.payload[1] == 0x0c) {
            let key_index = frame.payload[2];
            let is_last = frame.payload[3] != 0;
            let chunk_index = crate::le::u16_of_le(frame.payload[6], frame.payload[7]);
            let img_data = &frame.payload[8..frame.payload.len()];
            assert(img_data@ =~= frame.payload@.skip(8));
            self.surface.write_image_chunk(key_index, is_last, chunk_index, img_data);
        }
        if frame_wants_ack(frame) {
            return Some(ack_frame(frame, 0x02));
        }
        None
    }

    /// Poll the surface once; an event becomes a push frame carrying its input report.
    pub fn poll_surface_report(&mut self) -> (r: Option<Vec<u8>>)
        ensures
            r matches Some(v) ==> exists|e: SurfaceEvent|
                v@ == frame_bytes(push_header(), #[trigger] surface_event_report(e)),
            final(self).slot_index == old(self).slot_index,
            final(self).port == old(self).port,
    {
        match self.surface.poll_event() {
            Some(event) => {
                let v = surface_event_frame(&event);
                Some(v)
            },
            None => None,
        }
    }
}

} // verus!
