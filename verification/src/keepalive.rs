//! Keepalive probing and acknowledgment handling.

use vstd::prelude::*;

use crate::cora::{frame_bytes, lemma_frame_roundtrip, spec_decode, with_payload_len, CoraFlags, CoraFrame, CoraHeader, CoraHidOp};
use crate::bufops::zeros;
use crate::error::ProtocolError;

verus! {

/// Size of a keepalive probe payload.
pub const KEEPALIVE_PROBE_LEN: usize = 32;

/// Size of a keepalive acknowledgement payload.
pub const KEEPALIVE_ACK_LEN: usize = 32;

/// A probe is a payload of at least 6 bytes starting `01 0a`; its connection id is byte 5.
pub open spec fn spec_keepalive_probe(p: Seq<u8>) -> Option<u8> {
    if p.len() >= 6 && p[0] == 0x01 && p[1] == 0x0a {
        Some(p[5])
    } else {
        None
    }
}

/// An acknowledgement is a payload of at least 3 bytes starting `03 1a`; its connection id is byte 2.
pub open spec fn spec_keepalive_ack(p: Seq<u8>) -> Option<u8> {
    if p.len() >= 3 && p[0] == 0x03 && p[1] == 0x1a {
        Some(p[2])
    } else {
        None
    }
}

/// The 32-byte probe payload for a connection.
pub open spec fn probe_payload(connection_id: u8) -> Seq<u8> {
    seq![0x01u8, 0x0au8, 0u8, 0u8, 0u8, connection_id] + zeros(26)
}

/// The 32-byte acknowledgement payload for a connection.
pub open spec fn ack_payload(connection_id: u8) -> Seq<u8> {
    seq![0x03u8, 0x1au8, connection_id] + zeros(29)
}

/// The header of a probe: no flags, a write.
pub open spec fn probe_header(message_id: u32) -> CoraHeader {
    CoraHeader {
        flags: CoraFlags(0),
        hid_op: CoraHidOp::Write,
        reserved: 0,
        message_id,
        payload_len: 32,
    }
}

/// The header of an acknowledgement: the ACK_NAK flag, a write.
pub open spec fn ack_header(message_id: u32) -> CoraHeader {
    CoraHeader {
        flags: CoraFlags(0x0200),
        hid_op: CoraHidOp::Write,
        reserved: 0,
        message_id,
        payload_len: 32,
    }
}

/// The connection id of a keepalive probe, if the frame is one.
pub fn is_keepalive_probe(frame: &CoraFrame) -> (r: Option<u8>)
    ensures
        r == spec_keepalive_probe(frame.payload@),
{
    if frame.payload.len() >= 6 && frame.payload[0] == 0x01 && frame.payload[1] == 0x0a {
        Some(frame.payload[5])
    } else {
        None
    }
}

/// The connection id of a keepalive acknowledgement, if the frame is one.
pub fn is_keepalive_ack(frame: &CoraFrame) -> (r: Option<u8>)
    ensures
        r == spec_keepalive_ack(frame.payload@),
{
    if frame.payload.len() >= 3 && frame.payload[0] == 0x03 && frame.payload[1] == 0x1a {
        Some(frame.payload[2])
    } else {
        None
    }
}

/// Write the 32-byte probe payload for a connection.
pub fn build_keepalive_probe_payload(connection_id: u8, out: &mut [u8; 32])
    ensures
        final(out)@ == probe_payload(connection_id),
{
    let mut i: usize = 0;
    while i < 32
        invariant
            i <= 32,
            forall|j: int| 0 <= j < i ==> out@[j] == 0u8,
        decreases 32 - i,
    {
        out[i] = 0;
        i = i + 1;
    }
    out[0] = 0x01;
    out[1] = 0x0a;
    out[5] = connection_id;
    assert(out@ =~= probe_payload(connection_id));
}

/// Write the 32-byte acknowledgement payload for a connection.
pub fn build_keepalive_ack_payload(connection_id: u8, out: &mut [u8; 32])
    ensures
        final(out)@ == ack_payload(connection_id),
{
    let mut i: usize = 0;
    while i < 32
        invariant
            i <= 32,
            forall|j: int| 0 <= j < i ==> out@[j] == 0u8,
        decreases 32 - i,
    {
        out[i] = 0;
        i = i + 1;
    }
    out[0] = 0x03;
    out[1] = 0x1a;
    out[2] = connection_id;
    assert(out@ =~= ack_payload(connection_id));
}

/// Encode a complete probe frame into `out`; fails when `out` holds fewer than 48 bytes.
pub fn build_keepalive_probe_frame(connection_id: u8, message_id: u32, out: &mut [u8]) -> (r:
    Result<usize, ProtocolError>)
    ensures
        r is Ok <==> old(out)@.len() >= 48,
        match r {
            Ok(n) => n == 48 && final(out)@ == frame_bytes(
                probe_header(message_id),
                probe_payload(connection_id),
            ) + old(out)@.skip(48),
            Err(e) => e == ProtocolError::BufferTooSmall && final(out)@ == old(out)@,
        },
{
    let mut payload = [0u8; 32];
    build_keepalive_probe_payload(connection_id, &mut payload);
    let header = CoraHeader::new(CoraFlags::none(), CoraHidOp::Write, message_id, KEEPALIVE_PROBE_LEN);
    let frame = CoraFrame::new(header, payload.as_slice());
    frame.encode(out)
}

/// Encode a complete acknowledgement frame into `out`; fails when `out` holds fewer than 48 bytes.
pub fn build_keepalive_ack_frame(connection_id: u8, message_id: u32, out: &mut [u8]) -> (r:
    Result<usize, ProtocolError>)
    ensures
        r is Ok <==> old(out)@.len() >= 48,
        match r {
            Ok(n) => n == 48 && final(out)@ == frame_bytes(
                ack_header(message_id),
                ack_payload(connection_id),
            ) + old(out)@.skip(48),
            Err(e) => e == ProtocolError::BufferTooSmall && final(out)@ == old(out)@,
        },
{
    let mut payload = [0u8; 32];
    build_keepalive_ack_payload(connection_id, &mut payload);
    let header = CoraHeader::new(CoraFlags::ack_nak(), CoraHidOp::Write, message_id, KEEPALIVE_ACK_LEN);
    let frame = CoraFrame::new(header, payload.as_slice());
    frame.encode(out)
}

/// The 48 bytes of a probe frame.
pub fn build_keepalive_probe_vec(connection_id: u8, message_id: u32) -> (r: Vec<u8>)
    ensures
        r@ == frame_bytes(probe_header(message_id), probe_payload(connection_id)),
{
    let mut buf = [0u8; 48];
    let res = build_keepalive_probe_frame(connection_id, message_id, &mut buf);
    assert(buf@ =~= frame_bytes(probe_header(message_id), probe_payload(connection_id)));
    vstd::slice::slice_to_vec(buf.as_slice())
}

/// The 48 bytes of an acknowledgement frame.
pub fn build_keepalive_ack_vec(connection_id: u8, message_id: u32) -> (r: Vec<u8>)
    ensures
        r@ == frame_bytes(ack_header(message_id), ack_payload(connection_id)),
{
    let mut buf = [0u8; 48];
    let res = build_keepalive_ack_frame(connection_id, message_id, &mut buf);
    assert(buf@ =~= frame_bytes(ack_header(message_id), ack_payload(connection_id)));
    vstd::slice::slice_to_vec(buf.as_slice())
}


/// A probe frame decodes to a frame that is recognized as a probe of the same
/// connection and not as an acknowledgement.
pub proof fn lemma_probe_recognized(connection_id: u8, message_id: u32, rest: Seq<u8>)
    ensures
        spec_decode(frame_bytes(probe_header(message_id), probe_payload(connection_id)) + rest)
            == Ok::<Option<(CoraHeader, int)>, ProtocolError>(Some((probe_header(message_id), 48))),
        (frame_bytes(probe_header(message_id), probe_payload(connection_id)) + rest).subrange(16, 48)
            == probe_payload(connection_id),
        spec_keepalive_probe(probe_payload(connection_id)) == Some(connection_id),
        spec_keepalive_ack(probe_payload(connection_id)) == None::<u8>,
{
    assert(with_payload_len(probe_header(message_id), 32) == probe_header(message_id));
    lemma_frame_roundtrip(probe_header(message_id), probe_payload(connection_id), rest);
}

/// An acknowledgement frame decodes to a frame that is recognized as an
/// acknowledgement of the same connection and not as a probe.
pub proof fn lemma_ack_recognized(connection_id: u8, message_id: u32, rest: Seq<u8>)
    ensures
        spec_decode(frame_bytes(ack_header(message_id), ack_payload(connection_id)) + rest)
            == Ok::<Option<(CoraHeader, int)>, ProtocolError>(Some((ack_header(message_id), 48))),
        (frame_bytes(ack_header(message_id), ack_payload(connection_id)) + rest).subrange(16, 48)
            == ack_payload(connection_id),
        spec_keepalive_ack(ack_payload(connection_id)) == Some(connection_id),
        spec_keepalive_probe(ack_payload(connection_id)) == None::<u8>,
{
    assert(with_payload_len(ack_header(message_id), 32) == ack_header(message_id));
    lemma_frame_roundtrip(ack_header(message_id), ack_payload(connection_id), rest);
}

/// The wire bytes of the keepalive exchange: both frames are 48 bytes, the
/// CORA magic, a Write carrying the message id (little-endian at 8..12) and a
/// 32-byte payload; a probe has no flags and starts its payload `01 0a` with
/// the connection id at payload byte 5; an acknowledgement has the ACK_NAK
/// flag (0x0200) and starts its payload `03 1a` with the connection id.
pub proof fn lemma_keepalive_wire_bytes(connection_id: u8, message_id: u32)
    ensures
        ({
            let probe = frame_bytes(probe_header(message_id), probe_payload(connection_id));
            let ack = frame_bytes(ack_header(message_id), ack_payload(connection_id));
            &&& probe.len() == 48 && ack.len() == 48
            &&& probe[0] == 0x43 && probe[1] == 0x93 && probe[2] == 0x8a && probe[3] == 0x41
            &&& ack[0] == 0x43 && ack[1] == 0x93 && ack[2] == 0x8a && ack[3] == 0x41
            &&& probe[4] == 0 && probe[5] == 0 && probe[6] == 0
            &&& ack[4] == 0 && ack[5] == 0x02 && ack[6] == 0
            &&& probe[8] as int == message_id % 256 && ack[8] as int == message_id % 256
            &&& probe[12] == 32 && ack[12] == 32
            &&& probe[16] == 0x01 && probe[17] == 0x0a && probe[21] == connection_id
            &&& ack[16] == 0x03 && ack[17] == 0x1a && ack[18] == connection_id
            &&& forall|i: int| 22 <= i < 48 ==> probe[i] == 0
            &&& forall|i: int| 19 <= i < 48 ==> ack[i] == 0
        }),
{
}

} // verus!
