use opennetdeck::constants::{PRODUCT_ID_NETWORK_DOCK, VENDOR_ID_ELGATO};
use opennetdeck::cora::{CoraFlags, CoraFrame, CoraHeader, CoraHidOp};
use opennetdeck::dock::{DockConfig, DockStateInner, ServerMode};
use opennetdeck::keepalive::build_keepalive_ack_vec;
use opennetdeck::primary::{hotplug_push_frame, plan_primary_frame, primary_query_response, PrimaryPlan, PrimarySession};
use opennetdeck::reports::{ChildDeviceInfo, PrimaryFeatureCommand};
use opennetdeck::session::KeepaliveTimer;

fn test_config() -> DockConfig {
    DockConfig {
        serial_number: "TEST_SERIAL_123".to_string(),
        firmware_version: "2.1.0.0".to_string(),
        mac_address: [0xAA, 0xBB, 0xCC, 0xDD, 0xEE, 0xFF],
        primary_port: 5343,
        secondary_port: 5344,
        mode: ServerMode::Dock,
    }
}

fn query(op: CoraHidOp, msg: u32, payload: &[u8]) -> Vec<u8> {
    let header = CoraHeader::new(CoraFlags::none(), op, msg, payload.len());
    let mut buf = vec![0u8; 16 + payload.len()];
    let n = CoraFrame::new(header, payload).encode(&mut buf).unwrap();
    buf.truncate(n);
    buf
}

/// Runs a query through the primary port's planner and answer, as the server does.
fn answer(state: &DockStateInner, bytes: &[u8]) -> (CoraHeader, Vec<u8>, PrimaryFeatureCommand) {
    let (frame, _) = CoraFrame::decode(bytes).unwrap().unwrap();
    let cmd = match plan_primary_frame(&frame, ServerMode::Dock) {
        PrimaryPlan::Query(cmd) => cmd,
        _ => panic!("expected a feature query"),
    };
    let resp = primary_query_response(&frame, cmd, ServerMode::Dock, state, &None, None, None);
    let (rf, used) = CoraFrame::decode(&resp).unwrap().unwrap();
    assert_eq!(used, resp.len());
    (rf.header, rf.payload.to_vec(), cmd)
}

fn decode_owned(bytes: &[u8]) -> (CoraHeader, Vec<u8>) {
    let (f, _) = CoraFrame::decode(bytes).unwrap().unwrap();
    (f.header, f.payload.to_vec())
}

#[test]
fn primary_port_lifecycle_replay() {
    let mut state = DockStateInner::new(test_config());
    let conn_id = state.next_connection_id();
    assert_eq!(conn_id, 1);
    let mut session = PrimarySession::new(conn_id, ServerMode::Dock);

    // The probe sent on connect.
    let (probe_hdr, probe) = decode_owned(&session.keepalive.initial_probe());
    assert_eq!(probe[0], 0x01);
    assert_eq!(probe[1], 0x0a);
    assert_eq!(probe[5], conn_id);

    // The client's acknowledgement (03 1a ..) is answered as a watchdog query;
    // nothing is attached yet, so the initial hotplug round announces nothing.
    let ack = build_keepalive_ack_vec(probe[5], probe_hdr.message_id);
    let (h, p, cmd) = answer(&state, &ack);
    assert_eq!(cmd, PrimaryFeatureCommand::Other(0x1a));
    assert_eq!(h.message_id, probe_hdr.message_id);
    assert_eq!(&p[0..2], &[0x03, 0x1a]);
    assert!(session.hotplug_after_query(cmd, &state).is_empty());
    assert!(session.has_sent_initial_hotplug);

    // Device info.
    let (_, p, _) = answer(&state, &query(CoraHidOp::GetReport, 101, &[0x03, 0x80]));
    assert_eq!(p[0], 0x03);
    assert_eq!(p[1], 0x80);
    assert_eq!(u16::from_le_bytes([p[12], p[13]]), VENDOR_ID_ELGATO);
    assert_eq!(u16::from_le_bytes([p[14], p[15]]), PRODUCT_ID_NETWORK_DOCK);

    // Firmware version.
    let (_, p, _) = answer(&state, &query(CoraHidOp::GetReport, 102, &[0x03, 0x83]));
    assert_eq!(std::str::from_utf8(&p[8..15]).unwrap(), "2.1.0.0");

    // Serial number.
    let (_, p, _) = answer(&state, &query(CoraHidOp::GetReport, 103, &[0x03, 0x84]));
    let sn_len = p[3] as usize;
    assert_eq!(std::str::from_utf8(&p[4..4 + sn_len]).unwrap(), "TEST_SERIAL_123");

    // MAC address.
    let (_, p, _) = answer(&state, &query(CoraHidOp::GetReport, 104, &[0x03, 0x85]));
    assert_eq!(&p[4..10], &[0xAA, 0xBB, 0xCC, 0xDD, 0xEE, 0xFF]);

    // Child info while nothing is attached.
    let (h, p, _) = answer(&state, &query(CoraHidOp::GetReport, 105, &[0x03, 0x1c]));
    assert_eq!(h.message_id, 105);
    assert_eq!(p[0], 0x03);
    assert_eq!(p[1], 0x1c);
    assert_eq!(p[4], 0x00);

    // A device at slot 0 is announced.
    let child_0 = ChildDeviceInfo::connected(0, 0x0fd9, 0x0080, "Stream Deck MK.2", "STREAMDECK_MK2_SN", 5344);
    let note = state.set_device_for_slot(0, Some(child_0)).unwrap();
    let (_, p) = decode_owned(&hotplug_push_frame(&note));
    assert!(p.len() >= 128 && p[0] == 0x01 && p[1] == 0x0b);
    let parsed = ChildDeviceInfo::parse(&p).unwrap().unwrap();
    assert_eq!(parsed.slot_index, 0);
    assert_eq!(parsed.vendor_id, 0x0fd9);
    assert_eq!(parsed.product_id, 0x0080);
    assert_eq!(parsed.tcp_port, 5344);
    assert_eq!(parsed.serial_as_str().unwrap(), "STREAMDECK_MK2_SN");

    // A device at slot 1 is announced.
    let child_1 = ChildDeviceInfo::connected(1, 0x0fd9, 0x0084, "Stream Deck +", "STREAMDECK_PLUS_SN", 5345);
    let note = state.set_device_for_slot(1, Some(child_1)).unwrap();
    let (_, p) = decode_owned(&hotplug_push_frame(&note));
    let parsed = ChildDeviceInfo::parse(&p).unwrap().unwrap();
    assert_eq!(parsed.slot_index, 1);
    assert_eq!(parsed.vendor_id, 0x0fd9);
    assert_eq!(parsed.product_id, 0x0084);
    assert_eq!(parsed.tcp_port, 5345);
    assert_eq!(parsed.serial_as_str().unwrap(), "STREAMDECK_PLUS_SN");

    // Child info for slot 1.
    let (_, p, _) = answer(&state, &query(CoraHidOp::GetReport, 106, &[0x03, 0x1c, 1]));
    assert_eq!(p[0], 0x03);
    assert_eq!(p[1], 0x1c);
    assert_eq!(p[4], 0x02);
    assert_eq!(p[5], 1);
    let parsed = ChildDeviceInfo::parse(&p).unwrap().unwrap();
    assert_eq!(parsed.slot_index, 1);
    assert_eq!(parsed.product_id, 0x0084);
    assert_eq!(parsed.tcp_port, 5345);

    // Watchdog query: a RESULT; the initial hotplug round was already made.
    let (h, p, cmd) = answer(&state, &query(CoraHidOp::Write, 107, &[0x03, 0x1a]));
    assert_eq!(h.flags, CoraFlags::result());
    assert_eq!(h.message_id, 107);
    assert_eq!(p[0], 0x03);
    assert_eq!(p[1], 0x1a);
    assert!(session.hotplug_after_query(cmd, &state).is_empty());
}

#[test]
fn first_watchdog_query_announces_attached_devices_once() {
    let mut state = DockStateInner::new(test_config());
    state.attach_device("AAA", 0x0fd9, 0x0080, "Stream Deck MK.2");
    state.attach_device("BBB", 0x0fd9, 0x0084, "Stream Deck +");
    let mut session = PrimarySession::new(1, ServerMode::Dock);
    assert!(session.hotplug_after_query(PrimaryFeatureCommand::GetDeviceInfo, &state).is_empty());
    assert!(!session.has_sent_initial_hotplug);
    let cmd = PrimaryFeatureCommand::Other(0x1a);
    let pushes = session.hotplug_after_query(cmd, &state);
    assert_eq!(pushes.len(), 2);
    let (h0, p0) = decode_owned(&pushes[0]);
    let (_, p1) = decode_owned(&pushes[1]);
    assert_eq!(h0.message_id, 0);
    assert_eq!(&p0[0..2], &[0x01, 0x0b]);
    assert_eq!(ChildDeviceInfo::parse(&p0).unwrap().unwrap().slot_index, 0);
    assert_eq!(ChildDeviceInfo::parse(&p1).unwrap().unwrap().slot_index, 1);
    assert!(session.has_sent_initial_hotplug);
    assert!(session.hotplug_after_query(cmd, &state).is_empty());
}

#[test]
fn query_responses_are_128_or_1024_bytes() {
    let state = DockStateInner::new(test_config());
    let (_, p, _) = answer(&state, &query(CoraHidOp::GetReport, 1, &[0x03, 0x80]));
    assert_eq!(p.len(), 128);
    let mut long = vec![0u8; 1024];
    long[0] = 0x03;
    long[1] = 0x83;
    let (_, p, _) = answer(&state, &query(CoraHidOp::GetReport, 2, &long));
    assert_eq!(p.len(), 1024);
    let mut long_child = vec![0u8; 1024];
    long_child[0] = 0x03;
    long_child[1] = 0x1c;
    let (_, p, _) = answer(&state, &query(CoraHidOp::GetReport, 3, &long_child));
    assert_eq!(p.len(), 128);
}

#[test]
fn network_info_query_0x87() {
    let state = DockStateInner::new(test_config());
    let bytes = query(CoraHidOp::GetReport, 9, &[0x03, 0x87]);
    let (frame, _) = CoraFrame::decode(&bytes).unwrap().unwrap();
    let cmd = PrimaryFeatureCommand::Other(0x87);
    let resp = primary_query_response(&frame, cmd, ServerMode::Dock, &state, &None, Some([192, 168, 1, 20]), None);
    let (_, p) = decode_owned(&resp);
    assert_eq!(&p[0..4], &[0x03, 0x87, 0x01, 0x01]);
    assert_eq!(&p[4..8], &[192, 168, 1, 20]);
    assert_eq!(&p[8..12], &[255, 255, 255, 0]);
    assert_eq!(&p[12..16], &[192, 168, 1, 20]);
    assert_eq!(u16::from_le_bytes([p[16], p[17]]), 5343);
    let resp = primary_query_response(&frame, cmd, ServerMode::Dock, &state, &None, None, None);
    let (_, p) = decode_owned(&resp);
    assert_eq!(&p[4..16], &[0u8; 12]);
}

#[test]
fn probes_are_acknowledged_with_their_message_id() {
    let mut timer = KeepaliveTimer::new(9);
    let probe = timer.on_tick(100).unwrap();
    let (frame, _) = CoraFrame::decode(&probe).unwrap().unwrap();
    assert_eq!(frame.header.message_id, 2);
    match plan_primary_frame(&frame, ServerMode::Dock) {
        PrimaryPlan::Send(v) => assert_eq!(v, build_keepalive_ack_vec(9, 2)),
        _ => panic!("a probe is acknowledged"),
    }
}

#[test]
fn keepalive_timer_times_out_after_five_seconds() {
    let mut timer = KeepaliveTimer::new(3);
    assert!(timer.on_tick(5000).is_some());
    assert_eq!(timer.message_seq, 2);
    assert!(timer.on_tick(5001).is_none());
    assert_eq!(timer.message_seq, 2);
    let mut wrap = KeepaliveTimer { connection_id: 3, message_seq: u32::MAX };
    assert!(wrap.on_tick(0).is_some());
    assert_eq!(wrap.message_seq, 0);
}

#[test]
fn direct_mode_forwards_images_and_reports() {
    let bytes = query(CoraHidOp::Write, 0, &[0x02, 0x07, 0x00]);
    let (frame, _) = CoraFrame::decode(&bytes).unwrap().unwrap();
    assert!(matches!(plan_primary_frame(&frame, ServerMode::Direct), PrimaryPlan::ForwardWrite(None)));
    assert!(matches!(
        plan_primary_frame(&frame, ServerMode::Dock),
        PrimaryPlan::Query(PrimaryFeatureCommand::Other(0x02))
    ));
    let empty = query(CoraHidOp::Write, 0, &[]);
    let (frame, _) = CoraFrame::decode(&empty).unwrap().unwrap();
    assert!(matches!(plan_primary_frame(&frame, ServerMode::Direct), PrimaryPlan::Ignore));

    let header = CoraHeader::new(CoraFlags::req_ack(), CoraHidOp::SendReport, 6, 2);
    let mut buf = [0u8; 32];
    let n = CoraFrame::new(header, &[0x03, 0x08]).encode(&mut buf).unwrap();
    let (frame, _) = CoraFrame::decode(&buf[..n]).unwrap().unwrap();
    match plan_primary_frame(&frame, ServerMode::Direct) {
        PrimaryPlan::ForwardSetReport(Some(ack)) => {
            let (h, p) = decode_owned(&ack);
            assert_eq!(h.flags, CoraFlags::result());
            assert_eq!(h.message_id, 6);
            assert_eq!(p[0], 0x03);
        }
        _ => panic!("a feature report is forwarded in direct mode"),
    }
}

#[test]
fn hotplug_not_sent_in_direct_mode() {
    let state = DockStateInner::new(test_config());
    let mut session = PrimarySession::new(1, ServerMode::Direct);
    assert!(session.hotplug_after_query(PrimaryFeatureCommand::Other(0x1a), &state).is_empty());
    assert!(!session.has_sent_initial_hotplug);
}
