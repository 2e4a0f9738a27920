//! CORA packet framing, header serialization, and codec operations.

use vstd::prelude::*;

use crate::constants::{magic_seq, CORA_HEADER_SIZE};
use crate::error::ProtocolError;
use crate::le::{le_u16, le_u32, lemma_u16_roundtrip, lemma_u32_roundtrip, u16_from_le, u16_of_le, u16_to_le, u32_from_le, u32_of_le, u32_to_le};

verus! {

/// CORA message flags.
#[derive(Debug, Clone, Copy, PartialEq, Eq, Structural, Default)]
pub struct CoraFlags(pub u16);

impl CoraFlags {
    /// No flag set.
    pub fn none() -> (r: CoraFlags)
        ensures
            r.0 == 0x0000,
    {
        CoraFlags(0x0000)
    }

    /// The frame answers a request.
    pub fn result() -> (r: CoraFlags)
        ensures
            r.0 == 0x0100,
    {
        CoraFlags(0x0100)
    }

    /// The frame acknowledges another one.
    pub fn ack_nak() -> (r: CoraFlags)
        ensures
            r.0 == 0x0200,
    {
        CoraFlags(0x0200)
    }

    /// The sender asks for an acknowledgement.
    pub fn req_ack() -> (r: CoraFlags)
        ensures
            r.0 == 0x4000,
    {
        CoraFlags(0x4000)
    }

    /// The payload is to be passed on verbatim.
    pub fn verbatim() -> (r: CoraFlags)
        ensures
            r.0 == 0x8000,
    {
        CoraFlags(0x8000)
    }

    /// Every bit set in `other` is set in `self`.
    pub fn contains(&self, other: CoraFlags) -> (r: bool)
        ensures
            r == (self.0 & other.0 == other.0),
    {
        (self.0 & other.0) == other.0
    }

    /// The bits set in either operand.
    pub fn union(self, other: CoraFlags) -> (r: CoraFlags)
        ensures
            r.0 == self.0 | other.0,
    {
        CoraFlags(self.0 | other.0)
    }

    /// The raw flag word.
    pub fn bits(&self) -> (r: u16)
        ensures
            r == self.0,
    {
        self.0
    }
}

/// The union of two flag words contains each of them.
pub proof fn lemma_union_contains(a: CoraFlags, b: CoraFlags)
    ensures
        (a.0 | b.0) & a.0 == a.0,
        (a.0 | b.0) & b.0 == b.0,
{
    let x = a.0;
    let y = b.0;
    assert((x | y) & x == x) by (bit_vector);
    assert((x | y) & y == y) by (bit_vector);
}

/// HID operation code transmitted in the CORA header.
#[derive(Debug, Clone, Copy, PartialEq, Eq, Structural)]
pub enum CoraHidOp {
    /// Pass-through data write (e.g. key image buffer, LCD graphics).
    Write,
    /// Send HID feature report.
    SendReport,
    /// Query HID feature report.
    GetReport,
}

/// The wire code of an operation.
pub open spec fn hid_op_code(op: CoraHidOp) -> u8 {
    match op {
        CoraHidOp::Write => 0,
        CoraHidOp::SendReport => 1,
        CoraHidOp::GetReport => 2,
    }
}

/// The operation a wire code stands for, if any.
pub open spec fn hid_op_of(code: u8) -> Option<CoraHidOp> {
    if code == 0 {
        Some(CoraHidOp::Write)
    } else if code == 1 {
        Some(CoraHidOp::SendReport)
    } else if code == 2 {
        Some(CoraHidOp::GetReport)
    } else {
        None
    }
}

impl CoraHidOp {
    /// Decode an operation code; codes above 2 are refused.
    pub fn from_u8(value: u8) -> (r: Result<CoraHidOp, ProtocolError>)
        ensures
            match hid_op_of(value) {
                Some(op) => r == Ok::<CoraHidOp, ProtocolError>(op),
                None => r == Err::<CoraHidOp, ProtocolError>(ProtocolError::UnknownHidOp(value)),
            },
    {
        match value {
            0 => Ok(CoraHidOp::Write),
            1 => Ok(CoraHidOp::SendReport),
            2 => Ok(CoraHidOp::GetReport),
            other => Err(ProtocolError::UnknownHidOp(other)),
        }
    }

    /// The wire code of this operation.
    pub fn as_u8(&self) -> (r: u8)
        ensures
            r == hid_op_code(*self),
    {
        match self {
            CoraHidOp::Write => 0,
            CoraHidOp::SendReport => 1,
            CoraHidOp::GetReport => 2,
        }
    }
}

/// Decoding the code of an operation gives the operation back.
pub proof fn lemma_hid_op_roundtrip(op: CoraHidOp)
    ensures
        hid_op_of(hid_op_code(op)) == Some(op),
{
}

/// 16-byte fixed-size CORA header.
#[derive(Debug, Clone, Copy, PartialEq, Eq, Structural)]
pub struct CoraHeader {
    pub flags: CoraFlags,
    pub hid_op: CoraHidOp,
    pub reserved: u8,
    pub message_id: u32,
    pub payload_len: u32,
}

/// The 16 bytes that encode a header: magic, flags, operation, reserved byte,
/// message id and payload length, integers little-endian.
pub open spec fn header_bytes(h: CoraHeader) -> Seq<u8> {
    magic_seq() + le_u16(h.flags.0) + seq![hid_op_code(h.hid_op), h.reserved] + le_u32(h.message_id)
        + le_u32(h.payload_len)
}

/// The four bytes of `b` starting at `i` are the CORA magic.
pub open spec fn magic_at(b: Seq<u8>, i: int) -> bool {
    &&& 0 <= i
    &&& i + 4 <= b.len()
    &&& b[i] == 0x43
    &&& b[i + 1] == 0x93
    &&& b[i + 2] == 0x8a
    &&& b[i + 3] == 0x41
}

/// What parsing a header out of `b` gives.
pub open spec fn spec_parse_header(b: Seq<u8>) -> Result<CoraHeader, ProtocolError> {
    if b.len() < 16 {
        Err(ProtocolError::IncompleteHeader)
    } else if !magic_at(b, 0) {
        Err(ProtocolError::InvalidMagic)
    } else {
        match hid_op_of(b[6]) {
            None => Err(ProtocolError::UnknownHidOp(b[6])),
            Some(op) => Ok(
                CoraHeader {
                    flags: CoraFlags(u16_from_le(b[4], b[5])),
                    hid_op: op,
                    reserved: b[7],
                    message_id: u32_from_le(b[8], b[9], b[10], b[11]),
                    payload_len: u32_from_le(b[12], b[13], b[14], b[15]),
                },
            ),
        }
    }
}

impl CoraHeader {
    /// A header with a zero reserved byte; the length is stored truncated to 32 bits.
    pub fn new(flags: CoraFlags, hid_op: CoraHidOp, message_id: u32, payload_len: usize) -> (r:
        CoraHeader)
        ensures
            r == (CoraHeader {
                flags,
                hid_op,
                reserved: 0,
                message_id,
                payload_len: payload_len as u32,
            }),
    {
        CoraHeader { flags, hid_op, reserved: 0, message_id, payload_len: payload_len as u32 }
    }

    /// Parse a header from the first 16 bytes of `buf`.
    pub fn parse(buf: &[u8]) -> (r: Result<CoraHeader, ProtocolError>)
        ensures
            r == spec_parse_header(buf@),
    {
        if buf.len() < CORA_HEADER_SIZE {
            return Err(ProtocolError::IncompleteHeader);
        }
        if !(buf[0] == 0x43 && buf[1] == 0x93 && buf[2] == 0x8a && buf[3] == 0x41) {
            return Err(ProtocolError::InvalidMagic);
        }
        let flags = CoraFlags(u16_of_le(buf[4], buf[5]));
        let hid_op = match CoraHidOp::from_u8(buf[6]) {
            Ok(op) => op,
            Err(e) => {
                return Err(e);
            },
        };
        let reserved = buf[7];
        let message_id = u32_of_le(buf[8], buf[9], buf[10], buf[11]);
        let payload_len = u32_of_le(buf[12], buf[13], buf[14], buf[15]);
        Ok(CoraHeader { flags, hid_op, reserved, message_id, payload_len })
    }

    /// Encode this header into a 16-byte buffer.
    pub fn encode(&self, out: &mut [u8; 16])
        ensures
            final(out)@ == header_bytes(*self),
    {
        let f = u16_to_le(self.flags.0);
        let m = u32_to_le(self.message_id);
        let l = u32_to_le(self.payload_len);
        out[0] = 0x43;
        out[1] = 0x93;
        out[2] = 0x8a;
        out[3] = 0x41;
        out[4] = f[0];
        out[5] = f[1];
        out[6] = self.hid_op.as_u8();
        out[7] = self.reserved;
        out[8] = m[0];
        out[9] = m[1];
        out[10] = m[2];
        out[11] = m[3];
        out[12] = l[0];
        out[13] = l[1];
        out[14] = l[2];
        out[15] = l[3];
        assert(out@ =~= header_bytes(*self));
    }
}

/// Parsing the encoding of a header gives the header back, whatever follows it.
pub proof fn lemma_header_roundtrip(h: CoraHeader, rest: Seq<u8>)
    ensures
        spec_parse_header(header_bytes(h) + rest) == Ok::<CoraHeader, ProtocolError>(h),
{
    let b = header_bytes(h) + rest;
    lemma_u16_roundtrip(h.flags.0);
    lemma_u32_roundtrip(h.message_id);
    lemma_u32_roundtrip(h.payload_len);
    assert(b[4] == le_u16(h.flags.0)[0]);
    assert(b[5] == le_u16(h.flags.0)[1]);
    assert(b[6] == hid_op_code(h.hid_op));
    assert(b[7] == h.reserved);
    assert(b[8] == le_u32(h.message_id)[0]);
    assert(b[9] == le_u32(h.message_id)[1]);
    assert(b[10] == le_u32(h.message_id)[2]);
    assert(b[11] == le_u32(h.message_id)[3]);
    assert(b[12] == le_u32(h.payload_len)[0]);
    assert(b[13] == le_u32(h.payload_len)[1]);
    assert(b[14] == le_u32(h.payload_len)[2]);
    assert(b[15] == le_u32(h.payload_len)[3]);
    assert(magic_at(b, 0));
}

/// `h` with its payload length replaced.
pub open spec fn with_payload_len(h: CoraHeader, n: u32) -> CoraHeader {
    CoraHeader {
        flags: h.flags,
        hid_op: h.hid_op,
        reserved: h.reserved,
        message_id: h.message_id,
        payload_len: n,
    }
}

/// The bytes of a frame: its header, with the length of the payload, then the payload.
pub open spec fn frame_bytes(h: CoraHeader, payload: Seq<u8>) -> Seq<u8> {
    header_bytes(with_payload_len(h, payload.len() as u32)) + payload
}

/// What decoding the start of a byte stream gives: an error, `None` while more
/// bytes are needed, or the header and the number of bytes the frame takes.
pub open spec fn spec_decode(b: Seq<u8>) -> Result<Option<(CoraHeader, int)>, ProtocolError> {
    if b.len() < 16 {
        Ok(None)
    } else {
        match spec_parse_header(b) {
            Err(e) => Err(e),
            Ok(h) => if b.len() < 16 + h.payload_len {
                Ok(None)
            } else {
                Ok(Some((h, 16 + h.payload_len)))
            },
        }
    }
}

/// Decoding the bytes of a frame, whatever follows them, gives back its header
/// (with the payload's length), its payload, and the frame's size.
pub proof fn lemma_frame_roundtrip(h: CoraHeader, payload: Seq<u8>, rest: Seq<u8>)
    requires
        payload.len() < 0x1_0000_0000,
    ensures
        spec_decode(frame_bytes(h, payload) + rest) == Ok::<Option<(CoraHeader, int)>, ProtocolError>(
            Some((with_payload_len(h, payload.len() as u32), 16 + payload.len() as int))),
        (frame_bytes(h, payload) + rest).subrange(16, 16 + payload.len() as int) == payload,
{
    let h2 = with_payload_len(h, payload.len() as u32);
    let b = frame_bytes(h, payload) + rest;
    assert(b =~= header_bytes(h2) + (payload + rest));
    lemma_header_roundtrip(h2, payload + rest);
    assert(b.subrange(16, 16 + payload.len() as int) =~= payload);
}

/// A parsed CORA frame referencing the underlying payload slice.
#[derive(Debug, Clone, PartialEq, Eq)]
pub struct CoraFrame<'a> {
    pub header: CoraHeader,
    pub payload: &'a [u8],
}

impl<'a> CoraFrame<'a> {
    /// A frame of the given header and payload.
    pub fn new(header: CoraHeader, payload: &'a [u8]) -> (r: CoraFrame<'a>)
        ensures
            r.header == header,
            r.payload@ == payload@,
    {
        CoraFrame { header, payload }
    }

    /// Locate the first occurrence of the CORA magic within `buf`.
    pub fn find_magic(buf: &[u8]) -> (r: Option<usize>)
        ensures
            match r {
                Some(i) => magic_at(buf@, i as int) && forall|j: int|
                    0 <= j < i ==> !magic_at(buf@, j),
                None => forall|j: int| !magic_at(buf@, j),
            },
    {
        if buf.len() < 4 {
            return None;
        }
        let mut i: usize = 0;
        while i <= buf.len() - 4
            invariant
                buf.len() >= 4,
                i <= buf.len() - 3,
                forall|j: int| 0 <= j < i ==> !magic_at(buf@, j),
            decreases buf.len() - i,
        {
            if buf[i] == 0x43 && buf[i + 1] == 0x93 && buf[i + 2] == 0x8a && buf[i + 3] == 0x41 {
                return Some(i);
            }
            i = i + 1;
        }
        None
    }

    /// Try to decode a complete CORA frame from the start of `buf`.
    /// `Ok(Some((frame, consumed)))` on success, `Ok(None)` if more data is
    /// required, or the error that the header gives.
    pub fn decode(buf: &'a [u8]) -> (r: Result<Option<(CoraFrame<'a>, usize)>, ProtocolError>)
        ensures
            match r {
                Ok(Some((f, n))) => spec_decode(buf@) == Ok::<
                    Option<(CoraHeader, int)>,
                    ProtocolError,
                >(Some((f.header, n as int))) && f.payload@ == buf@.subrange(16, n as int),
                Ok(None) => spec_decode(buf@) == Ok::<
                    Option<(CoraHeader, int)>,
                    ProtocolError,
                >(None),
                Err(e) => spec_decode(buf@) == Err::<Option<(CoraHeader, int)>, ProtocolError>(e),
            },
    {
        if buf.len() < CORA_HEADER_SIZE {
            return Ok(None);
        }
        if !(buf[0] == 0x43 && buf[1] == 0x93 && buf[2] == 0x8a && buf[3] == 0x41) {
            return Err(ProtocolError::InvalidMagic);
        }
        let header = match CoraHeader::parse(buf) {
            Ok(h) => h,
            Err(e) => {
                return Err(e);
            },
        };
        let plen = header.payload_len as usize;
        if buf.len() - CORA_HEADER_SIZE < plen {
            return Ok(None);
        }
        let total_len = CORA_HEADER_SIZE + plen;
        let payload = &buf[CORA_HEADER_SIZE..total_len];
        Ok(Some((CoraFrame { header, payload }, total_len)))
    }

    /// Encode this frame into `out`; the header is written with the payload's
    /// length. Returns the number of bytes written.
    pub fn encode(&self, out: &mut [u8]) -> (r: Result<usize, ProtocolError>)
        ensures
            r is Ok <==> old(out)@.len() >= 16 + self.payload@.len(),
            match r {
                Ok(n) => n == 16 + self.payload@.len() && final(out)@ == frame_bytes(
                    self.header,
                    self.payload@,
                ) + old(out)@.skip(n as int),
                Err(e) => e == ProtocolError::BufferTooSmall && final(out)@ == old(out)@,
            },
    {
        let plen = self.payload.len();
        if out.len() < CORA_HEADER_SIZE || out.len() - CORA_HEADER_SIZE < plen {
            return Err(ProtocolError::BufferTooSmall);
        }
        let total_len = CORA_HEADER_SIZE + plen;
        let mut header_buf = [0u8; 16];
        let mut header = self.header;
        header.payload_len = plen as u32;
        header.encode(&mut header_buf);
        let ghost hb = header_buf@;
        let ghost old_out = out@;
        let mut i: usize = 0;
        while i < CORA_HEADER_SIZE
            invariant
                i <= 16,
                out@.len() == old_out.len(),
                old_out.len() >= total_len,
                total_len == 16 + plen,
                header_buf@ == hb,
                hb.len() == 16,
                forall|j: int| 0 <= j < i ==> out@[j] == hb[j],
                forall|j: int| i <= j < out@.len() ==> out@[j] == old_out[j],
            decreases 16 - i,
        {
            out[i] = header_buf[i];
            i = i + 1;
        }
        let mut k: usize = 0;
        while k < plen
            invariant
                k <= plen,
                plen == self.payload@.len(),
                out@.len() == old_out.len(),
                old_out.len() >= total_len,
                total_len == 16 + plen,
                hb.len() == 16,
                forall|j: int| 0 <= j < 16 ==> out@[j] == hb[j],
                forall|j: int| 0 <= j < k ==> out@[16 + j] == self.payload@[j],
                forall|j: int| 16 + k <= j < out@.len() ==> out@[j] == old_out[j],
            decreases plen - k,
        {
            out[CORA_HEADER_SIZE + k] = self.payload[k];
            k = k + 1;
        }
        assert(out@ =~= frame_bytes(self.header, self.payload@) + old_out.skip(total_len as int));
        Ok(total_len)
    }

    /// The encoded bytes of this frame, as `encode` writes them.
    pub fn to_vec(&self) -> (r: Vec<u8>)
        ensures
            r@ == frame_bytes(self.header, self.payload@),
    {
        let plen = self.payload.len();
        let mut header_buf = [0u8; 16];
        let mut header = self.header;
        header.payload_len = plen as u32;
        header.encode(&mut header_buf);
        let mut v: Vec<u8> = Vec::new();
        let mut i: usize = 0;
        while i < CORA_HEADER_SIZE
            invariant
                i <= 16,
                header_buf@ == header_bytes(with_payload_len(self.header, plen as u32)),
                v@ == header_buf@.take(i as int),
            decreases 16 - i,
        {
            v.push(header_buf[i]);
            i = i + 1;
            assert(v@ =~= header_buf@.take(i as int));
        }
        let mut k: usize = 0;
        while k < plen
            invariant
                k <= plen,
                plen == self.payload@.len(),
                header_buf@ == header_bytes(with_payload_len(self.header, plen as u32)),
                v@ == header_buf@ + self.payload@.take(k as int),
            decreases plen - k,
        {
            v.push(self.payload[k]);
            k = k + 1;
            assert(v@ =~= header_buf@ + self.payload@.take(k as int));
        }
        assert(self.payload@.take(plen as int) =~= self.payload@);
        v
    }
}

} // verus!
