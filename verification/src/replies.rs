//! Replies that the dock and its bridges send back for a received frame.

use vstd::prelude::*;

use crate::cora::{frame_bytes, lemma_frame_roundtrip, spec_decode, CoraFlags, CoraFrame, CoraHeader, CoraHidOp};

verus! {

/// The flags of a reply: RESULT, with VERBATIM when the request had it.
pub open spec fn spec_reply_flags(h: CoraHeader) -> CoraFlags {
    if h.flags.0 & 0x8000 == 0x8000 {
        CoraFlags(0x8100)
    } else {
        CoraFlags(0x0100)
    }
}

/// The header of a reply to `h`: reply flags, the same operation and message id.
pub open spec fn reply_header(h: CoraHeader) -> CoraHeader {
    CoraHeader {
        flags: spec_reply_flags(h),
        hid_op: h.hid_op,
        reserved: 0,
        message_id: h.message_id,
        payload_len: 0,
    }
}

/// The header of a plain result to `h`: only the RESULT flag.
pub open spec fn result_header(h: CoraHeader) -> CoraHeader {
    CoraHeader {
        flags: CoraFlags(0x0100),
        hid_op: h.hid_op,
        reserved: 0,
        message_id: h.message_id,
        payload_len: 0,
    }
}

/// The sender of `h` expects an acknowledgement: it asked for one, or gave a message id.
pub open spec fn wants_ack(h: CoraHeader) -> bool {
    h.flags.0 & 0x4000 == 0x4000 || h.message_id != 0
}

/// The acknowledgement of a frame: a reply carrying the first payload byte, or
/// `default` when the payload is empty.
pub open spec fn ack_bytes(h: CoraHeader, payload: Seq<u8>, default: u8) -> Seq<u8> {
    frame_bytes(
        reply_header(h),
        if payload.len() > 0 {
            payload.take(1)
        } else {
            seq![default]
        },
    )
}

/// The header of a push frame: no flags, a write with message id 0.
pub open spec fn push_header() -> CoraHeader {
    CoraHeader {
        flags: CoraFlags(0),
        hid_op: CoraHidOp::Write,
        reserved: 0,
        message_id: 0,
        payload_len: 0,
    }
}

/// A reply answers its request: decoding it, whatever follows, gives the
/// request's operation and message id, the RESULT flag, VERBATIM exactly when
/// the request had it, and the payload it carries.
pub proof fn lemma_reply_answers_request(request: CoraHeader, payload: Seq<u8>, rest: Seq<u8>)
    requires
        payload.len() < 0x1_0000_0000,
    ensures
        ({
            let b = frame_bytes(reply_header(request), payload) + rest;
            &&& spec_decode(b) matches Ok(Some((h, n)))
            &&& h.hid_op == request.hid_op
            &&& h.message_id == request.message_id
            &&& h.flags.0 & 0x0100 == 0x0100
            &&& (h.flags.0 & 0x8000 == 0x8000) == (request.flags.0 & 0x8000 == 0x8000)
            &&& n == 16 + payload.len()
            &&& b.subrange(16, n) == payload
        }),
{
    lemma_frame_roundtrip(reply_header(request), payload, rest);
    let f = spec_reply_flags(request).0;
    if request.flags.0 & 0x8000 == 0x8000 {
        assert(f == 0x8100);
        assert(0x8100u16 & 0x0100u16 == 0x0100u16) by (bit_vector);
        assert(0x8100u16 & 0x8000u16 == 0x8000u16) by (bit_vector);
    } else {
        assert(f == 0x0100);
        assert(0x0100u16 & 0x0100u16 == 0x0100u16) by (bit_vector);
        assert(0x0100u16 & 0x8000u16 == 0u16) by (bit_vector);
    }
}

/// The flags of a reply to a frame with flags `flags`.
pub fn reply_flags(flags: CoraFlags) -> (r: CoraFlags)
    ensures
        r == spec_reply_flags(CoraHeader {
            flags,
            hid_op: CoraHidOp::Write,
            reserved: 0,
            message_id: 0,
            payload_len: 0,
        }),
{
    if flags.contains(CoraFlags::verbatim()) {
        let r = CoraFlags::verbatim().union(CoraFlags::result());
        assert(0x8000u16 | 0x0100u16 == 0x8100u16) by (bit_vector);
        r
    } else {
        CoraFlags::result()
    }
}

/// The bytes of a reply to `request` that carries `payload`.
pub fn reply_frame(request: &CoraHeader, payload: &[u8]) -> (r: Vec<u8>)
    ensures
        r@ == frame_bytes(reply_header(*request), payload@),
{
    let header = CoraHeader::new(
        reply_flags(request.flags),
        request.hid_op,
        request.message_id,
        payload.len(),
    );
    CoraFrame::new(header, payload).to_vec()
}

/// The bytes of a plain result to `request` that carries `payload`.
pub fn result_frame(request: &CoraHeader, payload: &[u8]) -> (r: Vec<u8>)
    ensures
        r@ == frame_bytes(result_header(*request), payload@),
{
    let header = CoraHeader::new(CoraFlags::result(), request.hid_op, request.message_id, payload.len());
    CoraFrame::new(header, payload).to_vec()
}

/// The bytes of a push frame carrying `payload`.
pub fn push_frame(payload: &[u8]) -> (r: Vec<u8>)
    ensures
        r@ == frame_bytes(push_header(), payload@),
{
    let header = CoraHeader::new(CoraFlags::none(), CoraHidOp::Write, 0, payload.len());
    CoraFrame::new(header, payload).to_vec()
}

/// Whether the sender of `frame` expects an acknowledgement.
pub fn frame_wants_ack(frame: &CoraFrame) -> (r: bool)
    ensures
        r == wants_ack(frame.header),
{
    frame.header.flags.contains(CoraFlags::req_ack()) || frame.header.message_id != 0
}

/// The acknowledgement of `frame`.
pub fn ack_frame(frame: &CoraFrame, default: u8) -> (r: Vec<u8>)
    ensures
        r@ == ack_bytes(frame.header, frame.payload@, default),
{
    if frame.payload.len() > 0 {
        reply_frame(&frame.header, &frame.payload[0..1])
    } else {
        let d: [u8; 1] = [default];
        assert(d@ =~= seq![default]);
        reply_frame(&frame.header, &d)
    }
}

} // verus!
