use opennetdeck::cora::{CoraFlags, CoraFrame, CoraHeader, CoraHidOp};
use opennetdeck::error::ProtocolError;
use opennetdeck::keepalive::{build_keepalive_ack_vec, build_keepalive_probe_vec, is_keepalive_ack, is_keepalive_probe};
use opennetdeck::replies::reply_frame;
use opennetdeck::stream::{drop_front, next_frame_in, FrameStream};

fn frame_bytes(flags: u16, op: u8, msg: u32, payload: &[u8]) -> Vec<u8> {
    let mut v = vec![0x43, 0x93, 0x8a, 0x41];
    v.extend_from_slice(&flags.to_le_bytes());
    v.push(op);
    v.push(0);
    v.extend_from_slice(&msg.to_le_bytes());
    v.extend_from_slice(&(payload.len() as u32).to_le_bytes());
    v.extend_from_slice(payload);
    v
}

#[test]
fn flags_contains_union_bits() {
    let f = CoraFlags::req_ack().union(CoraFlags::verbatim());
    assert_eq!(f.bits(), 0xc000);
    assert!(f.contains(CoraFlags::req_ack()));
    assert!(f.contains(CoraFlags::verbatim()));
    assert!(!f.contains(CoraFlags::result()));
    assert!(f.contains(CoraFlags::none()));
    assert_eq!(CoraFlags::result().bits(), 0x0100);
    assert_eq!(CoraFlags::ack_nak().bits(), 0x0200);
}

#[test]
fn hid_op_codes() {
    assert_eq!(CoraHidOp::from_u8(0), Ok(CoraHidOp::Write));
    assert_eq!(CoraHidOp::from_u8(1), Ok(CoraHidOp::SendReport));
    assert_eq!(CoraHidOp::from_u8(2), Ok(CoraHidOp::GetReport));
    assert_eq!(CoraHidOp::from_u8(3), Err(ProtocolError::UnknownHidOp(3)));
    assert_eq!(CoraHidOp::SendReport.as_u8(), 1);
}

#[test]
fn header_parse_errors() {
    assert_eq!(CoraHeader::parse(&[0x43, 0x93]), Err(ProtocolError::IncompleteHeader));
    let mut b = frame_bytes(0, 0, 1, &[]);
    b[0] = 0;
    assert_eq!(CoraHeader::parse(&b), Err(ProtocolError::InvalidMagic));
    let mut b = frame_bytes(0, 0, 1, &[]);
    b[6] = 9;
    assert_eq!(CoraHeader::parse(&b), Err(ProtocolError::UnknownHidOp(9)));
}

#[test]
fn header_new_truncates_length() {
    let h = CoraHeader::new(CoraFlags::none(), CoraHidOp::Write, 5, 0x1_0000_0003);
    assert_eq!(h.payload_len, 3);
    assert_eq!(h.reserved, 0);
}

#[test]
fn header_roundtrip_law_example() {
    let h = CoraHeader {
        flags: CoraFlags(0xabcd),
        hid_op: CoraHidOp::SendReport,
        reserved: 7,
        message_id: 0xdeadbeef,
        payload_len: 0x01020304,
    };
    let mut buf = [0u8; 16];
    h.encode(&mut buf);
    let mut longer = buf.to_vec();
    longer.extend_from_slice(&[1, 2, 3]);
    assert_eq!(CoraHeader::parse(&longer), Ok(h));
}

#[test]
fn find_magic_positions() {
    assert_eq!(CoraFrame::find_magic(&[0x43, 0x93, 0x8a]), None);
    assert_eq!(CoraFrame::find_magic(&[1, 2, 3, 4, 5]), None);
    assert_eq!(CoraFrame::find_magic(&[9, 0x43, 0x93, 0x8a, 0x41, 0x43, 0x93, 0x8a, 0x41]), Some(1));
    assert_eq!(CoraFrame::find_magic(&[0x43, 0x93, 0x8a, 0x41]), Some(0));
}

#[test]
fn decode_needs_more_and_errors() {
    let b = frame_bytes(0, 2, 9, &[1, 2, 3, 4]);
    assert_eq!(CoraFrame::decode(&b[..10]), Ok(None));
    assert_eq!(CoraFrame::decode(&b[..19]), Ok(None));
    let (f, n) = CoraFrame::decode(&b).unwrap().unwrap();
    assert_eq!(n, 20);
    assert_eq!(f.payload, &[1, 2, 3, 4]);
    assert_eq!(f.header.hid_op, CoraHidOp::GetReport);
    let mut bad = b.clone();
    bad[1] = 0;
    assert_eq!(CoraFrame::decode(&bad), Err(ProtocolError::InvalidMagic));
    let mut bad = b.clone();
    bad[6] = 5;
    assert_eq!(CoraFrame::decode(&bad), Err(ProtocolError::UnknownHidOp(5)));
}

#[test]
fn encode_uses_payload_length_and_checks_room() {
    let payload = [9u8, 8, 7];
    let header = CoraHeader::new(CoraFlags::result(), CoraHidOp::GetReport, 77, 100);
    let frame = CoraFrame::new(header, &payload);
    let mut small = [0xffu8; 18];
    assert_eq!(frame.encode(&mut small), Err(ProtocolError::BufferTooSmall));
    assert_eq!(small, [0xffu8; 18]);
    let mut out = [0xeeu8; 21];
    assert_eq!(frame.encode(&mut out), Ok(19));
    assert_eq!(&out[..19], &frame_bytes(0x0100, 2, 77, &payload)[..]);
    assert_eq!(&out[19..], &[0xee, 0xee]);
    assert_eq!(frame.to_vec(), frame_bytes(0x0100, 2, 77, &payload));
}

#[test]
fn keepalive_vectors_exact_bytes() {
    let mut p = vec![0x01, 0x0a, 0, 0, 0, 42];
    p.resize(32, 0);
    assert_eq!(build_keepalive_probe_vec(42, 3), frame_bytes(0, 0, 3, &p));
    let mut a = vec![0x03, 0x1a, 42];
    a.resize(32, 0);
    assert_eq!(build_keepalive_ack_vec(42, 3), frame_bytes(0x0200, 0, 3, &a));
}

#[test]
fn keepalive_recognition_edges() {
    let short = [0x01u8, 0x0a, 0, 0, 0];
    let h = CoraHeader::new(CoraFlags::none(), CoraHidOp::Write, 0, short.len());
    assert_eq!(is_keepalive_probe(&CoraFrame::new(h, &short)), None);
    let ack = [0x03u8, 0x1a, 9];
    assert_eq!(is_keepalive_ack(&CoraFrame::new(h, &ack)), Some(9));
    let ack_short = [0x03u8, 0x1a];
    assert_eq!(is_keepalive_ack(&CoraFrame::new(h, &ack_short)), None);
}

#[test]
fn stream_cuts_frames_and_keeps_rest() {
    let f1 = frame_bytes(0, 0, 1, &[1, 2]);
    let f2 = frame_bytes(0, 1, 2, &[3]);
    let mut s = FrameStream::with_capacity(64);
    s.push(&f1);
    s.push(&f2[..5]);
    let (h, p) = s.next_frame().unwrap();
    assert_eq!(h.message_id, 1);
    assert_eq!(p, vec![1, 2]);
    assert_eq!(s.len(), 5);
    assert!(s.next_frame().is_none());
    s.push(&f2[5..]);
    let (h, p) = s.next_frame().unwrap();
    assert_eq!(h.message_id, 2);
    assert_eq!(h.hid_op, CoraHidOp::SendReport);
    assert_eq!(p, vec![3]);
    assert_eq!(s.len(), 0);
}

#[test]
fn stream_resynchronizes_after_garbage() {
    let mut buf = vec![0u8; 20];
    let f = frame_bytes(0, 0, 5, &[7]);
    buf.extend_from_slice(&f);
    let (found, consumed) = next_frame_in(&buf);
    let (h, start) = found.unwrap();
    assert_eq!(h.message_id, 5);
    assert_eq!(start, 36);
    assert_eq!(consumed, 37);
    assert_eq!(&buf[start..consumed], &[7]);
}

#[test]
fn stream_drops_garbage_without_magic() {
    let garbage = vec![1u8; 40];
    let mut s = FrameStream::with_capacity(64);
    s.push(&garbage);
    assert!(s.next_frame().is_none());
    assert_eq!(s.len(), 0);
}

#[test]
fn stream_skips_bad_opcode_at_magic() {
    let mut bad = frame_bytes(0, 7, 1, &[]);
    let good = frame_bytes(0, 0, 2, &[4]);
    bad.extend_from_slice(&good);
    let mut s = FrameStream::with_capacity(64);
    s.push(&bad);
    let (h, p) = s.next_frame().unwrap();
    assert_eq!(h.message_id, 2);
    assert_eq!(p, vec![4]);
}

#[test]
fn stream_short_garbage_waits() {
    let mut s = FrameStream::with_capacity(8);
    s.push(&[1, 2, 3]);
    assert!(s.next_frame().is_none());
    assert_eq!(s.len(), 3);
}

#[test]
fn error_messages() {
    assert_eq!(ProtocolError::BufferTooSmall.message(), "Buffer is too small for the operation");
    assert_eq!(ProtocolError::UnknownHidOp(0x1c).message(), "Unknown HID opcode: 0x1c");
    assert_eq!(ProtocolError::UnknownReportId(5).message(), "Unknown report ID: 0x05");
    assert_eq!(
        ProtocolError::IncompleteFrame { expected: 120, available: 7 }.message(),
        "Incomplete frame: expected 120 bytes, got 7"
    );
    assert_eq!(ProtocolError::InvalidMagic.message(), "Invalid CORA magic header bytes");
    assert_eq!(ProtocolError::IncompleteHeader.message(), "Incomplete CORA header received");
    assert_eq!(ProtocolError::PayloadLengthExceeded.message(), "Payload length exceeds maximum allowable size");
    assert_eq!(ProtocolError::InvalidPayloadLayout.message(), "Invalid report payload layout or offsets");
    assert_eq!(ProtocolError::InvalidStringEncoding.message(), "String payload is not valid ASCII");
}

#[test]
fn stream_waits_on_every_prefix_of_a_frame() {
    let f = frame_bytes(0x4000, 2, 9, &[0x03, 0x84, 0x00]);
    for k in 0..f.len() {
        let mut s = FrameStream::with_capacity(64);
        s.push(&f[..k]);
        assert!(s.next_frame().is_none());
        assert_eq!(s.len(), k);
        s.push(&f[k..]);
        let (h, p) = s.next_frame().unwrap();
        assert_eq!(h.message_id, 9);
        assert_eq!(p, vec![0x03, 0x84, 0x00]);
        assert_eq!(s.len(), 0);
    }
}

#[test]
fn reply_echoes_operation_and_message_id() {
    let request = CoraHeader::new(CoraFlags::verbatim().union(CoraFlags::req_ack()), CoraHidOp::SendReport, 77, 3);
    let bytes = reply_frame(&request, &[0x03]);
    let (f, n) = CoraFrame::decode(&bytes).unwrap().unwrap();
    assert_eq!(n, bytes.len());
    assert_eq!(f.header.hid_op, CoraHidOp::SendReport);
    assert_eq!(f.header.message_id, 77);
    assert_eq!(f.header.flags.bits(), 0x8100);
    assert_eq!(f.payload, &[0x03]);
    let plain = CoraHeader::new(CoraFlags::req_ack(), CoraHidOp::Write, 78, 0);
    let bytes = reply_frame(&plain, &[]);
    let (f, _) = CoraFrame::decode(&bytes).unwrap().unwrap();
    assert_eq!(f.header.flags.bits(), 0x0100);
    assert_eq!(f.header.message_id, 78);
}

#[test]
fn drop_front_moves_the_rest_to_the_front() {
    let mut buf = [1u8, 2, 3, 4, 5, 6, 7, 8];
    assert_eq!(drop_front(&mut buf, 2, 5), 3);
    assert_eq!(buf, [3, 4, 5, 4, 5, 6, 7, 8]);
    let mut buf = [9u8, 8, 7];
    assert_eq!(drop_front(&mut buf, 0, 3), 3);
    assert_eq!(buf, [9, 8, 7]);
    assert_eq!(drop_front(&mut buf, 3, 3), 0);
    assert_eq!(buf, [9, 8, 7]);
}
