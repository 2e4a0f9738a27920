use opennetdeck::cora::{CoraFlags, CoraFrame, CoraHeader, CoraHidOp};
use opennetdeck::deck_bridge::{surface_event_frame, EmbeddedDeckBridge};
use opennetdeck::dock_hub::EmbeddedDockHub;
use opennetdeck::keepalive::{build_keepalive_ack_vec, build_keepalive_probe_vec};
use opennetdeck::models::StreamDeckModel;
use opennetdeck::reports::ChildDeviceInfo;
use opennetdeck::secondary::{plan_secondary_frame, usb_report_reply, BridgeDevice, SecondaryPlan};
use opennetdeck::surface::{encode_surface_event, StreamDeckSurface, SurfaceEvent, VirtualStreamDeckPlus};

fn encode(flags: CoraFlags, op: CoraHidOp, msg: u32, payload: &[u8]) -> Vec<u8> {
    let header = CoraHeader::new(flags, op, msg, payload.len());
    let mut buf = vec![0u8; 16 + payload.len()];
    let n = CoraFrame::new(header, payload).encode(&mut buf).unwrap();
    buf.truncate(n);
    buf
}

fn decode_owned(bytes: &[u8]) -> (CoraHeader, Vec<u8>) {
    let (f, used) = CoraFrame::decode(bytes).unwrap().unwrap();
    assert_eq!(used, bytes.len());
    (f.header, f.payload.to_vec())
}

#[test]
fn deck_bridge_answers_feature_queries() {
    let mut deck = VirtualStreamDeckPlus::new("SDP0001");
    let mut bridge = EmbeddedDeckBridge::new(&mut deck, 2, 5346);

    let q = encode(CoraFlags::none(), CoraHidOp::GetReport, 11, &[0x03, 0x05]);
    let (f, _) = CoraFrame::decode(&q).unwrap().unwrap();
    let (h, p) = decode_owned(&bridge.handle_incoming_frame(&f).unwrap());
    assert_eq!(h.flags, CoraFlags::result());
    assert_eq!(h.message_id, 11);
    assert_eq!(h.hid_op, CoraHidOp::GetReport);
    assert_eq!(p.len(), 32);
    assert_eq!(p[0], 0x05);
    assert_eq!(p[1], 7);
    assert_eq!(&p[6..13], b"2.0.3.5");

    let q = encode(CoraFlags::verbatim(), CoraHidOp::Write, 12, &[0x03, 0x06]);
    let (f, _) = CoraFrame::decode(&q).unwrap().unwrap();
    let (h, p) = decode_owned(&bridge.handle_incoming_frame(&f).unwrap());
    assert_eq!(h.flags, CoraFlags::verbatim().union(CoraFlags::result()));
    assert_eq!(&p[0..2], &[0x06, 7]);
    assert_eq!(&p[2..9], b"SDP0001");

    let q = encode(CoraFlags::none(), CoraHidOp::GetReport, 13, &[0x0b]);
    let (f, _) = CoraFrame::decode(&q).unwrap().unwrap();
    let (_, p) = decode_owned(&bridge.handle_incoming_frame(&f).unwrap());
    assert_eq!(&p[0..4], &[0x0b, 0x02, 0x30, 0x01]);

    let q = encode(CoraFlags::none(), CoraHidOp::GetReport, 14, &[0x03, 0x80]);
    let (f, _) = CoraFrame::decode(&q).unwrap().unwrap();
    let (_, p) = decode_owned(&bridge.handle_incoming_frame(&f).unwrap());
    assert_eq!(p.len(), 16);
    assert_eq!(u16::from_le_bytes([p[12], p[13]]), 0x0fd9);
    assert_eq!(u16::from_le_bytes([p[14], p[15]]), 0x0084);

    let q = encode(CoraFlags::none(), CoraHidOp::GetReport, 15, &[0x03, 0x1c]);
    let (f, _) = CoraFrame::decode(&q).unwrap().unwrap();
    let (_, p) = decode_owned(&bridge.handle_incoming_frame(&f).unwrap());
    assert_eq!(p.len(), 128);
    let child = ChildDeviceInfo::parse(&p).unwrap().unwrap();
    assert_eq!(child.slot_index, 2);
    assert_eq!(child.tcp_port, 5346);
    assert_eq!(child.product_id, 0x0084);
    assert_eq!(child.serial_as_str().unwrap(), "SDP0001");

    let mut long = vec![0u8; 1024];
    long[0] = 0x03;
    long[1] = 0x22;
    let q = encode(CoraFlags::none(), CoraHidOp::GetReport, 16, &long);
    let (f, _) = CoraFrame::decode(&q).unwrap().unwrap();
    let (_, p) = decode_owned(&bridge.handle_incoming_frame(&f).unwrap());
    assert_eq!(p.len(), 1024);
    assert_eq!(&p[0..3], &[0x03, 0x22, 0x00]);
}

#[test]
fn deck_bridge_keepalive_brightness_and_images() {
    let mut deck = VirtualStreamDeckPlus::new("SDP0002");
    {
        let mut bridge = EmbeddedDeckBridge::new(&mut deck, 0, 5344);

        let probe = build_keepalive_probe_vec(4, 77);
        let (f, _) = CoraFrame::decode(&probe).unwrap().unwrap();
        assert_eq!(bridge.handle_incoming_frame(&f), Some(build_keepalive_ack_vec(4, 77)));
        assert_eq!(bridge.surface.brightness, 100);

        let ack = build_keepalive_ack_vec(4, 77);
        let (f, _) = CoraFrame::decode(&ack).unwrap().unwrap();
        assert_eq!(bridge.handle_incoming_frame(&f), None);

        let q = encode(CoraFlags::req_ack(), CoraHidOp::SendReport, 0, &[0x03, 0x08, 40]);
        let (f, _) = CoraFrame::decode(&q).unwrap().unwrap();
        let (h, p) = decode_owned(&bridge.handle_incoming_frame(&f).unwrap());
        assert_eq!(h.hid_op, CoraHidOp::SendReport);
        assert_eq!(p, vec![0x03]);
        assert_eq!(bridge.surface.brightness, 40);

        let q = encode(CoraFlags::none(), CoraHidOp::SendReport, 0, &[0x03, 0x08, 10]);
        let (f, _) = CoraFrame::decode(&q).unwrap().unwrap();
        assert_eq!(bridge.handle_incoming_frame(&f), None);

        let img = [0x02, 0x07, 1, 1, 0, 0, 0, 0, 0xff, 0xd8];
        let q = encode(CoraFlags::none(), CoraHidOp::Write, 9, &img);
        let (f, _) = CoraFrame::decode(&q).unwrap().unwrap();
        let (h, p) = decode_owned(&bridge.handle_incoming_frame(&f).unwrap());
        assert_eq!(h.message_id, 9);
        assert_eq!(p, vec![0x02]);
    }
    assert_eq!(deck.brightness, 10);
}

#[test]
fn virtual_deck_identity() {
    let deck = VirtualStreamDeckPlus::new("X1");
    assert_eq!(deck.vendor_id(), 0x0fd9);
    assert_eq!(deck.product_id(), 0x0084);
    assert_eq!(deck.model_name(), "Stream Deck +");
    assert_eq!(deck.firmware_version(), "2.0.3.5");
    assert_eq!(deck.key_count(), 8);
    assert_eq!(deck.dial_count(), 4);
    let mut deck = deck;
    assert_eq!(deck.poll_event(), None);
    let mut bridge = EmbeddedDeckBridge::new(&mut deck, 0, 5344);
    assert_eq!(bridge.poll_surface_report(), None);
}

#[test]
fn surface_event_reports() {
    let mut out = [0u8; 512];
    assert_eq!(encode_surface_event(&SurfaceEvent::KeyDown { key_index: 3 }, &mut out), 512);
    assert_eq!(&out[0..8], &[0x01, 0x00, 0x08, 0x00, 0x00, 0x00, 0x00, 0x01]);
    encode_surface_event(&SurfaceEvent::KeyDown { key_index: 20 }, &mut out);
    assert_eq!(out[11], 0x01);
    encode_surface_event(&SurfaceEvent::KeyUp { key_index: 3 }, &mut out);
    assert!(out[4..].iter().all(|b| *b == 0));
    encode_surface_event(&SurfaceEvent::DialRotate { dial_index: 2, delta: -3 }, &mut out);
    assert_eq!(&out[0..4], &[0x01, 0x03, 0x02, 0xfd]);
    encode_surface_event(&SurfaceEvent::DialPress { dial_index: 1 }, &mut out);
    assert_eq!(&out[0..4], &[0x01, 0x03, 0x01, 0x01]);
    encode_surface_event(&SurfaceEvent::DialRelease { dial_index: 1 }, &mut out);
    assert_eq!(&out[0..4], &[0x01, 0x03, 0x01, 0x00]);
    encode_surface_event(&SurfaceEvent::TouchTap { dial_index: 0, x: 0x0123, y: 0x0045 }, &mut out);
    assert_eq!(&out[0..8], &[0x01, 0x02, 0x00, 0x00, 0x23, 0x01, 0x45, 0x00]);

    let (h, p) = decode_owned(&surface_event_frame(&SurfaceEvent::KeyDown { key_index: 0 }));
    assert_eq!(h.flags, CoraFlags::none());
    assert_eq!(h.hid_op, CoraHidOp::Write);
    assert_eq!(h.message_id, 0);
    assert_eq!(p.len(), 512);
    assert_eq!(p[4], 0x01);
}

#[test]
fn dock_hub_greeting_and_queries() {
    let hub = EmbeddedDockHub::new("HUB123", "1.2.3.4", [1, 2, 3, 4, 5, 6], [10, 0, 0, 7], 5343, 5344);
    let children = [ChildDeviceInfo::connected(3, 0x0fd9, 0x0080, "Stream Deck MK.2", "MK2SN", 5347)];
    let greeting = hub.greeting_frames(&children);
    assert_eq!(greeting.len(), 2);
    assert_eq!(greeting[0], build_keepalive_probe_vec(1, 1));
    let (_, p) = decode_owned(&greeting[1]);
    assert_eq!(&p[0..2], &[0x01, 0x0b]);
    assert_eq!(ChildDeviceInfo::parse(&p).unwrap().unwrap().slot_index, 3);

    let q = encode(CoraFlags::none(), CoraHidOp::GetReport, 21, &[0x03, 0x84]);
    let (f, _) = CoraFrame::decode(&q).unwrap().unwrap();
    let (h, p) = decode_owned(&hub.handle_frame(&f, &children).unwrap());
    assert_eq!(h.flags, CoraFlags::result());
    assert_eq!(h.hid_op, CoraHidOp::GetReport);
    assert_eq!(h.message_id, 21);
    assert_eq!(p.len(), 1024);
    assert_eq!(p[3], 6);
    assert_eq!(&p[4..10], b"HUB123");

    let q = encode(CoraFlags::none(), CoraHidOp::GetReport, 22, &[0x03, 0x1c, 3]);
    let (f, _) = CoraFrame::decode(&q).unwrap().unwrap();
    let (_, p) = decode_owned(&hub.handle_frame(&f, &children).unwrap());
    assert_eq!(p.len(), 128);
    assert_eq!(p[4], 0x02);
    assert_eq!(ChildDeviceInfo::parse(&p).unwrap().unwrap().tcp_port, 5347);

    let q = encode(CoraFlags::none(), CoraHidOp::GetReport, 23, &[0x03, 0x1c, 4]);
    let (f, _) = CoraFrame::decode(&q).unwrap().unwrap();
    let (_, p) = decode_owned(&hub.handle_frame(&f, &children).unwrap());
    assert_eq!(p[4], 0x00);
    assert_eq!(ChildDeviceInfo::parse(&p).unwrap(), None);

    let q = encode(CoraFlags::none(), CoraHidOp::GetReport, 24, &[0x03, 0x87]);
    let (f, _) = CoraFrame::decode(&q).unwrap().unwrap();
    let (_, p) = decode_owned(&hub.handle_frame(&f, &children).unwrap());
    assert_eq!(&p[0..18], &[0x03, 0x87, 0x01, 0x01, 10, 0, 0, 7, 255, 255, 255, 0, 10, 0, 0, 7, 0xdf, 0x14]);

    let probe = build_keepalive_probe_vec(5, 8);
    let (f, _) = CoraFrame::decode(&probe).unwrap().unwrap();
    assert_eq!(hub.handle_frame(&f, &children), Some(build_keepalive_ack_vec(5, 8)));

    // Any other payload is taken as a query for its first byte.
    let q = encode(CoraFlags::none(), CoraHidOp::Write, 25, &[0x02, 0x07]);
    let (f, _) = CoraFrame::decode(&q).unwrap().unwrap();
    let (_, p) = decode_owned(&hub.handle_frame(&f, &children).unwrap());
    assert_eq!(p.len(), 1024);
    assert_eq!(&p[0..3], &[0x03, 0x02, 0x00]);

    let q = encode(CoraFlags::none(), CoraHidOp::Write, 26, &[]);
    let (f, _) = CoraFrame::decode(&q).unwrap().unwrap();
    assert_eq!(hub.handle_frame(&f, &children), None);
}

#[test]
fn secondary_port_plans() {
    let device = BridgeDevice {
        vendor_id: 0x0fd9,
        product_id: 0x0080,
        serial_number: "CL12A1A99999",
        model: Some(StreamDeckModel::OriginalMK2),
    };

    let q = encode(CoraFlags::none(), CoraHidOp::GetReport, 31, &[0x03, 0x1c]);
    let (f, _) = CoraFrame::decode(&q).unwrap().unwrap();
    match plan_secondary_frame(&f, &device) {
        SecondaryPlan::Send(v) => {
            let (h, p) = decode_owned(&v);
            assert_eq!(h.flags, CoraFlags::result());
            assert_eq!(p.len(), 128);
            let c = ChildDeviceInfo::parse(&p).unwrap().unwrap();
            assert_eq!(c.tcp_port, 5344);
            assert_eq!(c.serial_as_str().unwrap(), "CL12A1A99999");
            assert_eq!(&c.product_name[0..16], b"Stream Deck MK.2");
        }
        _ => panic!("child info is answered by the bridge"),
    }

    let q = encode(CoraFlags::none(), CoraHidOp::GetReport, 32, &[0x03, 0x80]);
    let (f, _) = CoraFrame::decode(&q).unwrap().unwrap();
    match plan_secondary_frame(&f, &device) {
        SecondaryPlan::Send(v) => {
            let (_, p) = decode_owned(&v);
            assert_eq!(p.len(), 16);
            assert_eq!(u16::from_le_bytes([p[14], p[15]]), 0x0080);
        }
        _ => panic!("device info is answered by the bridge"),
    }

    let q = encode(CoraFlags::none(), CoraHidOp::GetReport, 33, &[0x03, 0x05]);
    let (f, _) = CoraFrame::decode(&q).unwrap().unwrap();
    match plan_secondary_frame(&f, &device) {
        SecondaryPlan::UsbGetReport { report_id, length } => {
            assert_eq!(report_id, 0x05);
            assert_eq!(length, 32);
        }
        _ => panic!("other reports are read from the device"),
    }

    let q = encode(CoraFlags::none(), CoraHidOp::SendReport, 34, &[0x03, 0x08, 50]);
    let (f, _) = CoraFrame::decode(&q).unwrap().unwrap();
    assert!(matches!(plan_secondary_frame(&f, &device), SecondaryPlan::UsbSetReport(Some(_))));

    let q = encode(CoraFlags::none(), CoraHidOp::Write, 0, &[0x02, 0x07, 0, 0]);
    let (f, _) = CoraFrame::decode(&q).unwrap().unwrap();
    assert!(matches!(plan_secondary_frame(&f, &device), SecondaryPlan::UsbWrite(None)));

    let probe = build_keepalive_probe_vec(2, 3);
    let (f, _) = CoraFrame::decode(&probe).unwrap().unwrap();
    match plan_secondary_frame(&f, &device) {
        SecondaryPlan::Send(v) => assert_eq!(v, build_keepalive_ack_vec(2, 3)),
        _ => panic!("probes are acknowledged"),
    }
    let ack = build_keepalive_ack_vec(2, 3);
    let (f, _) = CoraFrame::decode(&ack).unwrap().unwrap();
    assert!(matches!(plan_secondary_frame(&f, &device), SecondaryPlan::Ignore));
}

#[test]
fn secondary_usb_report_replies() {
    let q = encode(CoraFlags::verbatim(), CoraHidOp::GetReport, 41, &[0x03, 0x06]);
    let (f, _) = CoraFrame::decode(&q).unwrap().unwrap();
    let (h, p) = decode_owned(&usb_report_reply(&f, 0x06, Some(vec![0x06, 3, b'a', b'b', b'c'])));
    assert_eq!(h.flags, CoraFlags::verbatim().union(CoraFlags::result()));
    assert_eq!(p, vec![0x06, 3, b'a', b'b', b'c']);

    let (h, p) = decode_owned(&usb_report_reply(&f, 0x06, None));
    assert_eq!(h.message_id, 41);
    assert_eq!(p.len(), 32);
    assert_eq!(&p[0..3], &[0x03, 0x06, 0x00]);

    let mut long = vec![0u8; 1024];
    long[0] = 0x03;
    long[1] = 0x06;
    let q = encode(CoraFlags::none(), CoraHidOp::GetReport, 42, &long);
    let (f, _) = CoraFrame::decode(&q).unwrap().unwrap();
    let (_, p) = decode_owned(&usb_report_reply(&f, 0x06, Some(vec![0x06, 1, 2])));
    assert_eq!(p.len(), 1024);
    assert_eq!(&p[0..4], &[0x06, 1, 2, 0]);
    let (_, p) = decode_owned(&usb_report_reply(&f, 0x06, None));
    assert_eq!(p.len(), 1024);
}
