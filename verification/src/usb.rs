//! The decisions around the physical USB Stream Deck: which endpoints to use,
//! which control requests to send, and how an attached device is presented.

use vstd::prelude::*;

use crate::models::{spec_match_model, spec_model_name, match_streamdeck_model, StreamDeckModel};

verus! {

/// An endpoint of the claimed interface, as its descriptor gives it.
#[derive(Debug, Clone, Copy, PartialEq, Eq, Structural)]
pub struct EndpointInfo {
    pub is_in: bool,
    pub address: u8,
    pub max_packet_size: usize,
}

/// The endpoints used for a device.
#[derive(Debug, Clone, Copy, PartialEq, Eq, Structural)]
pub struct EndpointSelection {
    pub ep_in_addr: u8,
    pub ep_out_addr: Option<u8>,
    pub max_packet_size: usize,
}

/// The endpoints chosen from the descriptors seen so far: the last IN endpoint
/// (with its packet size) and the last OUT endpoint, else 0x81, 512 and 0x02.
pub open spec fn spec_select_endpoints(eps: Seq<EndpointInfo>) -> EndpointSelection
    decreases eps.len(),
{
    if eps.len() == 0 {
        EndpointSelection { ep_in_addr: 0x81, ep_out_addr: Some(0x02), max_packet_size: 512 }
    } else {
        let prev = spec_select_endpoints(eps.drop_last());
        let e = eps.last();
        if e.is_in {
            EndpointSelection {
                ep_in_addr: e.address,
                ep_out_addr: prev.ep_out_addr,
                max_packet_size: e.max_packet_size,
            }
        } else {
            EndpointSelection {
                ep_in_addr: prev.ep_in_addr,
                ep_out_addr: Some(e.address),
                max_packet_size: prev.max_packet_size,
            }
        }
    }
}

/// Choose the endpoints of a device from its endpoint descriptors, in order.
pub fn select_endpoints(eps: &[EndpointInfo]) -> (r: EndpointSelection)
    ensures
        r == spec_select_endpoints(eps@),
{
    let mut sel = EndpointSelection { ep_in_addr: 0x81, ep_out_addr: Some(0x02), max_packet_size: 512 };
    let mut i: usize = 0;
    assert(eps@.take(0) =~= Seq::<EndpointInfo>::empty());
    while i < eps.len()
        invariant
            i <= eps@.len(),
            sel == spec_select_endpoints(eps@.take(i as int)),
        decreases eps.len() - i,
    {
        assert(eps@.take(i + 1).drop_last() =~= eps@.take(i as int));
        let e = eps[i];
        if e.is_in {
            sel.ep_in_addr = e.address;
            sel.max_packet_size = e.max_packet_size;
        } else {
            sel.ep_out_addr = Some(e.address);
        }
        i = i + 1;
    }
    assert(eps@.take(i as int) =~= eps@);
    sel
}

/// A HID class control request: the `wValue` (report type in the high byte,
/// report id in the low byte) and the `wLength`.
#[derive(Debug, Clone, Copy, PartialEq, Eq, Structural)]
pub struct HidControlRequest {
    pub value: u16,
    pub length: u16,
}

/// The GET_REPORT request for feature report `report_id`: at least 32 bytes
/// are asked for; the length is kept modulo 65536.
pub fn feature_report_request(report_id: u8, length: usize) -> (r: HidControlRequest)
    ensures
        r.value == 0x0300 + report_id,
        r.length == (if length < 32 {
            32
        } else {
            length
        }) as u16,
{
    let len = if length < 32 {
        32
    } else {
        length
    };
    HidControlRequest { value: 0x0300 + report_id as u16, length: len as u16 }
}

/// The `wValue` of a SET_REPORT request of type `report_type` for report `report_id`.
pub fn report_value(report_type: u8, report_id: u8) -> (r: u16)
    ensures
        r == report_type * 256 + report_id,
{
    (report_type as u16) * 256 + report_id as u16
}

/// The product id and name under which an attached device is announced: the
/// overriding id when one is given, else the device's; the name of the model
/// that vendor and id identify, else that of the device's own model, else
/// "Stream Deck".
pub fn child_identity(
    vendor_id: u16,
    device_product_id: u16,
    override_pid: Option<u16>,
    device_model: Option<StreamDeckModel>,
) -> (r: (u16, &'static str))
    ensures
        r.0 == match override_pid {
            Some(p) => p,
            None => device_product_id,
        },
        r.1@ == match spec_match_model(vendor_id, r.0) {
            Some(m) => spec_model_name(m),
            None => match device_model {
                Some(m) => spec_model_name(m),
                None => "Stream Deck"@,
            },
        },
{
    let pid = match override_pid {
        Some(p) => p,
        None => device_product_id,
    };
    let name = match match_streamdeck_model(vendor_id, pid) {
        Some(m) => m.name(),
        None => match device_model {
            Some(m) => m.name(),
            None => "Stream Deck",
        },
    };
    (pid, name)
}

} // verus!
