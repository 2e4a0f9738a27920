use opennetdeck::constants::{VENDOR_ID_CORSAIR, VENDOR_ID_ELGATO};
use opennetdeck::error::ProtocolError;
use opennetdeck::models::{is_streamdeck_vendor, match_streamdeck_model, StreamDeckModel};
use opennetdeck::reports::{
    build_cora_push_frame, build_cora_response_frame, build_device_info_payload,
    build_firmware_version_payload, build_mac_address_payload, build_serial_number_payload,
    parse_primary_query, ChildDeviceInfo, PrimaryFeatureCommand,
};

#[test]
fn feature_command_codes() {
    assert_eq!(PrimaryFeatureCommand::from_u8(0x80), PrimaryFeatureCommand::GetDeviceInfo);
    assert_eq!(PrimaryFeatureCommand::from_u8(0x83), PrimaryFeatureCommand::GetFirmwareVersion);
    assert_eq!(PrimaryFeatureCommand::from_u8(0x84), PrimaryFeatureCommand::GetSerialNumber);
    assert_eq!(PrimaryFeatureCommand::from_u8(0x85), PrimaryFeatureCommand::GetMacAddress);
    assert_eq!(PrimaryFeatureCommand::from_u8(0x1c), PrimaryFeatureCommand::GetChildDeviceInfo);
    assert_eq!(PrimaryFeatureCommand::from_u8(0x87), PrimaryFeatureCommand::Other(0x87));
    for v in 0..=255u8 {
        assert_eq!(PrimaryFeatureCommand::from_u8(v).as_u8(), v);
    }
}

#[test]
fn primary_query_parsing() {
    assert_eq!(parse_primary_query(&[]), None);
    assert_eq!(parse_primary_query(&[0x03]), Some(PrimaryFeatureCommand::Other(0x03)));
    assert_eq!(parse_primary_query(&[0x03, 0x84]), Some(PrimaryFeatureCommand::GetSerialNumber));
    assert_eq!(parse_primary_query(&[0x85, 0x01]), Some(PrimaryFeatureCommand::GetMacAddress));
}

#[test]
fn payload_builders_refuse_small_buffers() {
    let mut b = [7u8; 15];
    assert_eq!(build_device_info_payload(1, 2, &mut b), Err(ProtocolError::BufferTooSmall));
    assert_eq!(build_firmware_version_payload("1", &mut b), Err(ProtocolError::BufferTooSmall));
    assert_eq!(b, [7u8; 15]);
    let mut b = [7u8; 9];
    assert_eq!(build_mac_address_payload([1; 6], &mut b), Err(ProtocolError::BufferTooSmall));
    let mut b = [7u8; 8];
    assert_eq!(build_serial_number_payload("ABCDE", &mut b), Err(ProtocolError::BufferTooSmall));
    let mut b = [7u8; 9];
    assert_eq!(build_serial_number_payload("ABCDE", &mut b), Ok(9));
}

#[test]
fn device_info_exact_bytes() {
    let mut b = [0xffu8; 20];
    assert_eq!(build_device_info_payload(0x1234, 0xabcd, &mut b), Ok(16));
    assert_eq!(b, [0x03, 0x80, 0, 0, 0, 0, 0, 0, 0, 0, 0, 0, 0x34, 0x12, 0xcd, 0xab, 0xff, 0xff, 0xff, 0xff]);
}

#[test]
fn firmware_version_is_cut_to_8_bytes() {
    let mut b = [0xffu8; 16];
    build_firmware_version_payload("123456789", &mut b).unwrap();
    assert_eq!(&b[..8], &[0x03, 0x83, 0, 0, 0, 0, 0, 0]);
    assert_eq!(&b[8..], b"12345678");
}

#[test]
fn serial_number_is_cut_to_32_bytes() {
    let long = "A".repeat(40);
    let mut b = [0u8; 64];
    assert_eq!(build_serial_number_payload(&long, &mut b), Ok(36));
    assert_eq!(b[3], 32);
    assert_eq!(&b[4..36], "A".repeat(32).as_bytes());
    assert_eq!(b[36], 0);
}

#[test]
fn child_record_roundtrip_law_example() {
    let c = ChildDeviceInfo::connected(3, 0x0fd9, 0x0084, "Stream Deck +", "PLUS123", 5347);
    assert_eq!(c.product_name_len, 13);
    assert_eq!(c.serial_len, 7);
    let mut rec = [0u8; 128];
    c.build_payload(true, 3, &mut rec);
    assert_eq!(&rec[64..70], b"Elgato");
    assert_eq!(&rec[30..32], &[0x00, 0x01]);
    let p = ChildDeviceInfo::parse(&rec).unwrap().unwrap();
    assert_eq!(p, c);
}

#[test]
fn child_name_and_serial_keep_31_bytes() {
    let long = "N".repeat(40);
    let c = ChildDeviceInfo::connected(0, 1, 2, &long, &long, 9);
    assert_eq!(c.product_name_len, 31);
    assert_eq!(c.serial_len, 31);
    assert_eq!(c.product_name[31], 0);
    let mut rec = [0u8; 128];
    c.build_payload(false, 0, &mut rec);
    let p = ChildDeviceInfo::parse(&rec).unwrap().unwrap();
    assert_eq!(p.serial_len, 31);
    assert_eq!(p.serial_as_str().unwrap(), "N".repeat(31));
}

#[test]
fn disconnected_record() {
    let d = ChildDeviceInfo::disconnected(4);
    assert!(!d.connected);
    assert_eq!(d.slot_index, 4);
    let mut rec = [0xffu8; 128];
    d.build_payload(false, 4, &mut rec);
    assert_eq!(&rec[..5], &[0x03, 0x1c, 124, 0, 0]);
    assert!(rec[5..].iter().all(|&b| b == 0));
    assert_eq!(ChildDeviceInfo::parse(&rec), Ok(None));
}

#[test]
fn child_parse_errors() {
    assert_eq!(ChildDeviceInfo::parse(&[0u8; 127]), Err(ProtocolError::BufferTooSmall));
    let mut rec = [0u8; 128];
    rec[4] = 0x02;
    rec[32..36].copy_from_slice(b"ABCD");
    let p = ChildDeviceInfo::parse(&rec).unwrap().unwrap();
    assert_eq!(p.product_name_len, 4);
    assert_eq!(p.serial_len, 0);
    assert_eq!(p.serial_as_str().unwrap(), "");
}

#[test]
fn serial_as_str_rejects_invalid_utf8() {
    let mut c = ChildDeviceInfo::disconnected(0);
    c.serial_number[0] = 0xff;
    c.serial_number[1] = 0x41;
    c.serial_len = 2;
    assert_eq!(c.serial_as_str(), Err(ProtocolError::InvalidStringEncoding));
    c.serial_number[0] = 0x42;
    assert_eq!(c.serial_as_str(), Ok("BA"));
}

#[test]
fn response_and_push_frames() {
    let mut out = [0u8; 32];
    assert_eq!(build_cora_response_frame(9, &[0x03, 0x1a], &mut out), Ok(18));
    assert_eq!(&out[4..6], &[0x00, 0x01]);
    assert_eq!(out[6], 2);
    assert_eq!(&out[8..12], &[9, 0, 0, 0]);
    assert_eq!(&out[12..16], &[2, 0, 0, 0]);
    assert_eq!(&out[16..18], &[0x03, 0x1a]);
    let mut out = [0u8; 17];
    assert_eq!(build_cora_push_frame(&[1, 2], &mut out), Err(ProtocolError::BufferTooSmall));
    let mut out = [0u8; 18];
    assert_eq!(build_cora_push_frame(&[1, 2], &mut out), Ok(18));
    assert_eq!(&out[4..12], &[0, 0, 0, 0, 0, 0, 0, 0]);
}

#[test]
fn model_table() {
    assert_eq!(match_streamdeck_model(VENDOR_ID_ELGATO, 0x0080), Some(StreamDeckModel::OriginalMK2));
    assert_eq!(match_streamdeck_model(VENDOR_ID_ELGATO, 0x0090), Some(StreamDeckModel::Mini));
    assert_eq!(match_streamdeck_model(VENDOR_ID_ELGATO, 0x008f), Some(StreamDeckModel::XL));
    assert_eq!(match_streamdeck_model(VENDOR_ID_ELGATO, 0x00c6), Some(StreamDeckModel::PlusXL));
    assert_eq!(match_streamdeck_model(VENDOR_ID_ELGATO, 0x2b18), None);
    assert_eq!(match_streamdeck_model(VENDOR_ID_CORSAIR, 0x2b18), Some(StreamDeckModel::GalleonK100));
    assert_eq!(match_streamdeck_model(0x1234, 0x0080), None);
    assert!(is_streamdeck_vendor(0x0fd9));
    assert!(is_streamdeck_vendor(0x1b1c));
    assert!(!is_streamdeck_vendor(0x1b1d));
}

#[test]
fn model_capabilities() {
    assert_eq!(StreamDeckModel::Plus.name(), "Stream Deck +");
    assert_eq!(StreamDeckModel::GalleonK100.name(), "Corsair Galleon K100");
    assert_eq!(StreamDeckModel::Module15.key_count(), 15);
    assert_eq!(StreamDeckModel::Studio.key_count(), 32);
    assert_eq!(StreamDeckModel::Pedal.key_count(), 3);
    assert_eq!(StreamDeckModel::Studio.encoder_count(), 2);
    assert_eq!(StreamDeckModel::PlusXL.encoder_count(), 4);
    assert_eq!(StreamDeckModel::Mini.encoder_count(), 0);
    assert!(StreamDeckModel::Neo.has_lcd_strip());
    assert!(!StreamDeckModel::XL.has_lcd_strip());
}

#[test]
fn long_serial_reads_back_only_when_cut_on_a_char_boundary() {
    let split = format!("{}é", "A".repeat(30));
    let c = ChildDeviceInfo::connected(0, 0x0fd9, 0x0080, "Stream Deck MK.2", &split, 5344);
    assert_eq!(c.serial_len, 31);
    assert_eq!(c.serial_as_str(), Err(ProtocolError::InvalidStringEncoding));
    let whole = format!("{}é", "A".repeat(31));
    let c = ChildDeviceInfo::connected(0, 0x0fd9, 0x0080, "Stream Deck MK.2", &whole, 5344);
    assert_eq!(c.serial_len, 31);
    assert_eq!(c.serial_as_str(), Ok("A".repeat(31).as_str()));
}
