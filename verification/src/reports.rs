//! Primary port feature reports, queries, and hotplug notifications.

use vstd::prelude::*;
use vstd::utf8::valid_utf8;
use vstd::string::StringSliceAdditionalSpecFns;

use crate::bufops::{min_usize, splice, write_bytes, zero_range, zeros};
use crate::cora::{frame_bytes, CoraFlags, CoraFrame, CoraHeader, CoraHidOp};
use crate::error::ProtocolError;
use crate::le::{le_u16, u16_from_le, u16_of_le, u16_to_le};

verus! {

/// Primary dock feature command opcodes.
#[derive(Debug, Clone, Copy, PartialEq, Eq, Structural)]
pub enum PrimaryFeatureCommand {
    /// 0x80: Request Dock Device Identity (Vendor ID and Product ID).
    GetDeviceInfo,
    /// 0x83: Request AP2 Firmware Version string.
    GetFirmwareVersion,
    /// 0x84: Request Dock Serial Number string.
    GetSerialNumber,
    /// 0x85: Request Dock Network MAC Address.
    GetMacAddress,
    /// 0x1c: Request Attached Downstream Child Device Info (`Device2Info`).
    GetChildDeviceInfo,
    /// Unknown or unsupported command opcode.
    Other(u8),
}

/// The command an opcode names.
pub open spec fn spec_command_of(v: u8) -> PrimaryFeatureCommand {
    if v == 0x80 {
        PrimaryFeatureCommand::GetDeviceInfo
    } else if v == 0x83 {
        PrimaryFeatureCommand::GetFirmwareVersion
    } else if v == 0x84 {
        PrimaryFeatureCommand::GetSerialNumber
    } else if v == 0x85 {
        PrimaryFeatureCommand::GetMacAddress
    } else if v == 0x1c {
        PrimaryFeatureCommand::GetChildDeviceInfo
    } else {
        PrimaryFeatureCommand::Other(v)
    }
}

/// The opcode of a command.
pub open spec fn spec_command_code(c: PrimaryFeatureCommand) -> u8 {
    match c {
        PrimaryFeatureCommand::GetDeviceInfo => 0x80,
        PrimaryFeatureCommand::GetFirmwareVersion => 0x83,
        PrimaryFeatureCommand::GetSerialNumber => 0x84,
        PrimaryFeatureCommand::GetMacAddress => 0x85,
        PrimaryFeatureCommand::GetChildDeviceInfo => 0x1c,
        PrimaryFeatureCommand::Other(v) => v,
    }
}

impl PrimaryFeatureCommand {
    /// The command an opcode names; unknown opcodes become `Other`.
    pub fn from_u8(value: u8) -> (r: PrimaryFeatureCommand)
        ensures
            r == spec_command_of(value),
    {
        match value {
            0x80 => PrimaryFeatureCommand::GetDeviceInfo,
            0x83 => PrimaryFeatureCommand::GetFirmwareVersion,
            0x84 => PrimaryFeatureCommand::GetSerialNumber,
            0x85 => PrimaryFeatureCommand::GetMacAddress,
            0x1c => PrimaryFeatureCommand::GetChildDeviceInfo,
            other => PrimaryFeatureCommand::Other(other),
        }
    }

    /// The opcode of this command.
    pub fn as_u8(&self) -> (r: u8)
        ensures
            r == spec_command_code(*self),
    {
        match self {
            PrimaryFeatureCommand::GetDeviceInfo => 0x80,
            PrimaryFeatureCommand::GetFirmwareVersion => 0x83,
            PrimaryFeatureCommand::GetSerialNumber => 0x84,
            PrimaryFeatureCommand::GetMacAddress => 0x85,
            PrimaryFeatureCommand::GetChildDeviceInfo => 0x1c,
            PrimaryFeatureCommand::Other(v) => *v,
        }
    }
}

/// An opcode survives decoding and re-encoding; a command survives the other
/// direction unless it is an `Other` that spells a known opcode.
pub proof fn lemma_command_roundtrip(v: u8, c: PrimaryFeatureCommand)
    ensures
        spec_command_code(spec_command_of(v)) == v,
        !(c matches PrimaryFeatureCommand::Other(x) && (x == 0x80 || x == 0x83 || x == 0x84 || x
            == 0x85 || x == 0x1c)) ==> spec_command_of(spec_command_code(c)) == c,
{
}

/// The command a query payload asks for: its second byte when it starts with
/// 0x03 and has one, else its first byte; nothing for an empty payload.
pub open spec fn spec_primary_query(p: Seq<u8>) -> Option<PrimaryFeatureCommand> {
    if p.len() == 0 {
        None
    } else if p[0] == 0x03 && p.len() >= 2 {
        Some(spec_command_of(p[1]))
    } else {
        Some(spec_command_of(p[0]))
    }
}

/// Parse the feature report command requested in a CORA payload.
pub fn parse_primary_query(payload: &[u8]) -> (r: Option<PrimaryFeatureCommand>)
    ensures
        r == spec_primary_query(payload@),
{
    if payload.len() == 0 {
        return None;
    }
    if payload[0] == 0x03 && payload.len() >= 2 {
        Some(PrimaryFeatureCommand::from_u8(payload[1]))
    } else {
        Some(PrimaryFeatureCommand::from_u8(payload[0]))
    }
}

/// The 16-byte `0x80` device info report.
pub open spec fn device_info_bytes(vendor_id: u16, product_id: u16) -> Seq<u8> {
    seq![0x03u8, 0x80u8] + zeros(10) + le_u16(vendor_id) + le_u16(product_id)
}

/// The 16-byte `0x83` firmware version report of a version string's bytes:
/// at most 8 of them, from offset 8.
pub open spec fn firmware_version_bytes(v: Seq<u8>) -> Seq<u8> {
    let c = if v.len() < 8 {
        v.len()
    } else {
        8
    };
    seq![0x03u8, 0x83u8] + zeros(6) + v.take(c as int) + zeros((8 - c) as nat)
}

/// The number of serial bytes a `0x84` report carries: at most 32.
pub open spec fn serial_report_len(s: Seq<u8>) -> int {
    if s.len() < 32 {
        s.len() as int
    } else {
        32
    }
}

/// The `0x84` serial number report: header, length byte, then the bytes.
pub open spec fn serial_number_bytes(s: Seq<u8>) -> Seq<u8> {
    seq![0x03u8, 0x84u8, 0u8, serial_report_len(s) as u8] + s.take(serial_report_len(s))
}

/// The 10-byte `0x85` MAC address report.
pub open spec fn mac_address_bytes(mac: Seq<u8>) -> Seq<u8> {
    seq![0x03u8, 0x85u8, 0u8, 0u8] + mac
}

/// Build the `0x80` device info report into the first 16 bytes of `out`.
pub fn build_device_info_payload(vendor_id: u16, product_id: u16, out: &mut [u8]) -> (r: Result<
    usize,
    ProtocolError,
>)
    ensures
        r is Ok <==> old(out)@.len() >= 16,
        match r {
            Ok(n) => n == 16 && final(out)@ == device_info_bytes(vendor_id, product_id) + old(
                out,
            )@.skip(16),
            Err(e) => e == ProtocolError::BufferTooSmall && final(out)@ == old(out)@,
        },
{
    if out.len() < 16 {
        return Err(ProtocolError::BufferTooSmall);
    }
    let ghost old_out = out@;
    zero_range(out, 0, 16);
    out[0] = 0x03;
    out[1] = 0x80;
    let v = u16_to_le(vendor_id);
    let p = u16_to_le(product_id);
    out[12] = v[0];
    out[13] = v[1];
    out[14] = p[0];
    out[15] = p[1];
    assert(out@ =~= device_info_bytes(vendor_id, product_id) + old_out.skip(16));
    Ok(16)
}

/// Build the `0x83` firmware version report into the first 16 bytes of `out`.
pub fn build_firmware_version_payload(version: &str, out: &mut [u8]) -> (r: Result<
    usize,
    ProtocolError,
>)
    ensures
        r is Ok <==> old(out)@.len() >= 16,
        match r {
            Ok(n) => n == 16 && final(out)@ == firmware_version_bytes(version.spec_bytes()) + old(
                out,
            )@.skip(16),
            Err(e) => e == ProtocolError::BufferTooSmall && final(out)@ == old(out)@,
        },
{
    if out.len() < 16 {
        return Err(ProtocolError::BufferTooSmall);
    }
    let ghost old_out = out@;
    zero_range(out, 0, 16);
    out[0] = 0x03;
    out[1] = 0x83;
    let ver_bytes = version.as_bytes();
    let copy_len = min_usize(ver_bytes.len(), 8);
    write_bytes(out, 8, &ver_bytes[0..copy_len]);
    assert(out@ =~= firmware_version_bytes(version.spec_bytes()) + old_out.skip(16));
    Ok(16)
}

/// Build the `0x84` serial number report into `out`; it takes 4 bytes plus at
/// most 32 of the serial's.
pub fn build_serial_number_payload(serial: &str, out: &mut [u8]) -> (r: Result<
    usize,
    ProtocolError,
>)
    ensures
        r is Ok <==> old(out)@.len() >= 4 + serial_report_len(serial.spec_bytes()),
        match r {
            Ok(n) => n == 4 + serial_report_len(serial.spec_bytes()) && final(out)@
                == serial_number_bytes(serial.spec_bytes()) + old(out)@.skip(n as int),
            Err(e) => e == ProtocolError::BufferTooSmall && final(out)@ == old(out)@,
        },
{
    let serial_bytes = serial.as_bytes();
    let length = min_usize(serial_bytes.len(), 32);
    let total_len = 4 + length;
    if out.len() < total_len {
        return Err(ProtocolError::BufferTooSmall);
    }
    let ghost old_out = out@;
    zero_range(out, 0, total_len);
    out[0] = 0x03;
    out[1] = 0x84;
    out[2] = 0x00;
    out[3] = length as u8;
    write_bytes(out, 4, &serial_bytes[0..length]);
    assert(out@ =~= serial_number_bytes(serial.spec_bytes()) + old_out.skip(total_len as int));
    Ok(total_len)
}

/// Build the `0x85` MAC address report into the first 10 bytes of `out`.
pub fn build_mac_address_payload(mac: [u8; 6], out: &mut [u8]) -> (r: Result<usize, ProtocolError>)
    ensures
        r is Ok <==> old(out)@.len() >= 10,
        match r {
            Ok(n) => n == 10 && final(out)@ == mac_address_bytes(mac@) + old(out)@.skip(10),
            Err(e) => e == ProtocolError::BufferTooSmall && final(out)@ == old(out)@,
        },
{
    if out.len() < 10 {
        return Err(ProtocolError::BufferTooSmall);
    }
    let ghost old_out = out@;
    zero_range(out, 0, 10);
    out[0] = 0x03;
    out[1] = 0x85;
    out[2] = 0x00;
    out[3] = 0x00;
    write_bytes(out, 4, &mac);
    assert(out@ =~= mac_address_bytes(mac@) + old_out.skip(10));
    Ok(10)
}

/// `core::str::from_utf8`: the string whose UTF-8 encoding is `bytes`, when
/// `bytes` is valid UTF-8. The contract claims that it succeeds exactly on
/// valid UTF-8 and then hands back a string with exactly those bytes.
#[verifier::external_body]
fn str_from_utf8(bytes: &[u8]) -> (r: Option<&str>)
    ensures
        r is Some <==> valid_utf8(bytes@),
        r matches Some(s) ==> s.spec_bytes() == bytes@,
{
    core::str::from_utf8(bytes).ok()
}

/// Child Stream Deck attachment info (`Device2Info`).
#[derive(Debug, Clone, Copy, PartialEq, Eq)]
pub struct ChildDeviceInfo {
    pub connected: bool,
    pub slot_index: u8,
    pub vendor_id: u16,
    pub product_id: u16,
    pub product_name: [u8; 32],
    pub product_name_len: usize,
    pub serial_number: [u8; 32],
    pub serial_len: usize,
    pub tcp_port: u16,
}

/// The number of leading bytes of `s` before its first zero byte (all of `s` if none).
pub open spec fn c_str_len(s: Seq<u8>) -> nat
    decreases s.len(),
{
    if s.len() == 0 {
        0
    } else if s[0] == 0 {
        0
    } else {
        1 + c_str_len(s.drop_first())
    }
}

/// `n` is where the first zero byte of `s` stands, or its length if it has none.
pub open spec fn is_c_str_len(s: Seq<u8>, n: int) -> bool {
    &&& 0 <= n <= s.len()
    &&& forall|j: int| 0 <= j < n ==> s[j] != 0
    &&& (n == s.len() || s[n] == 0)
}

/// `c_str_len` is the only length that `is_c_str_len` admits.
pub proof fn lemma_c_str_len(s: Seq<u8>, n: int)
    ensures
        is_c_str_len(s, c_str_len(s) as int),
        is_c_str_len(s, n) ==> n == c_str_len(s),
    decreases s.len(),
{
    if s.len() > 0 && s[0] != 0 {
        lemma_c_str_len(s.drop_first(), n - 1);
        assert forall|j: int| 0 <= j < c_str_len(s) implies s[j] != 0 by {
            if j > 0 {
                assert(s[j] == s.drop_first()[j - 1]);
            }
        }
        if is_c_str_len(s, n) {
            assert(n >= 1);
            assert forall|j: int| 0 <= j < n - 1 implies s.drop_first()[j] != 0 by {
                assert(s.drop_first()[j] == s[j + 1]);
            }
            assert(is_c_str_len(s.drop_first(), n - 1));
        }
    }
}

/// The 128-byte `Device2Info` record: the report id (`01 0b` for a push,
/// `03 1c` for a query answer), the length 124, and for a connected device the
/// status 2, the slot, the ids, the revision 1.00, at most 31 bytes of the name
/// field, the manufacturer "Elgato", at most 31 bytes of the serial field and
/// the TCP port; for another device the status 0 and zeros.
pub open spec fn child_record_bytes(
    is_push: bool,
    slot_index: u8,
    connected: bool,
    vendor_id: u16,
    product_id: u16,
    name: Seq<u8>,
    name_len: int,
    serial: Seq<u8>,
    serial_len: int,
    tcp_port: u16,
) -> Seq<u8> {
    let head = if is_push {
        seq![0x01u8, 0x0bu8, 124u8, 0u8]
    } else {
        seq![0x03u8, 0x1cu8, 124u8, 0u8]
    };
    let nl = if name_len < 31 {
        name_len
    } else {
        31
    };
    let sl = if serial_len < 31 {
        serial_len
    } else {
        31
    };
    if connected {
        head + seq![0x02u8, slot_index] + zeros(20) + le_u16(vendor_id) + le_u16(product_id) + seq![
            0x00u8,
            0x01u8,
        ] + name.take(nl) + zeros((32 - nl) as nat) + elgato_bytes() + zeros(24) + serial.take(sl)
            + zeros((32 - sl) as nat) + le_u16(tcp_port)
    } else {
        head + zeros(124)
    }
}

/// The record `build_payload` writes for `c` at `slot_index`.
pub open spec fn child_payload_bytes(c: ChildDeviceInfo, is_push: bool, slot_index: u8) -> Seq<
    u8,
> {
    child_record_bytes(
        is_push,
        slot_index,
        c.connected,
        c.vendor_id,
        c.product_id,
        c.product_name@,
        c.product_name_len as int,
        c.serial_number@,
        c.serial_len as int,
        c.tcp_port,
    )
}

/// The record of a device that `connected` describes, from the bytes of its
/// name and serial.
pub open spec fn connected_record_bytes(
    is_push: bool,
    slot_index: u8,
    vendor_id: u16,
    product_id: u16,
    name: Seq<u8>,
    serial: Seq<u8>,
    tcp_port: u16,
) -> Seq<u8> {
    child_record_bytes(
        is_push,
        slot_index,
        true,
        vendor_id,
        product_id,
        field_bytes(name, 31),
        field_len(name, 31),
        field_bytes(serial, 31),
        field_len(serial, 31),
        tcp_port,
    )
}

/// The manufacturer string of every child record.
pub open spec fn elgato_bytes() -> Seq<u8> {
    seq![0x45u8, 0x6cu8, 0x67u8, 0x61u8, 0x74u8, 0x6fu8]
}

/// `p` is the record that `parse` reads out of `buf`: connected, the slot at
/// byte 5, the ids, the name from offset 32 and the serial from offset 94 up to
/// their first zero byte (within 32 bytes), and the port at offset 126.
pub open spec fn parsed_child(p: ChildDeviceInfo, buf: Seq<u8>) -> bool {
    let name = buf.subrange(32, 64);
    let serial = buf.subrange(94, 126);
    &&& p.connected
    &&& p.slot_index == buf[5]
    &&& p.vendor_id == u16_from_le(buf[26], buf[27])
    &&& p.product_id == u16_from_le(buf[28], buf[29])
    &&& p.product_name_len == c_str_len(name)
    &&& p.product_name@ == name.take(c_str_len(name) as int) + zeros((32 - c_str_len(name)) as nat)
    &&& p.serial_len == c_str_len(serial)
    &&& p.serial_number@ == serial.take(c_str_len(serial) as int) + zeros(
        (32 - c_str_len(serial)) as nat,
    )
    &&& p.tcp_port == u16_from_le(buf[126], buf[127])
}

/// The bytes `s` kept in a 32-byte field: at most `max` of them, then zeros.
pub open spec fn field_bytes(s: Seq<u8>, max: int) -> Seq<u8> {
    let n = if s.len() < max {
        s.len() as int
    } else {
        max
    };
    s.take(n) + zeros((32 - n) as nat)
}

/// The length of the text kept in a field: at most `max` bytes.
pub open spec fn field_len(s: Seq<u8>, max: int) -> int {
    if s.len() < max {
        s.len() as int
    } else {
        max
    }
}

/// The length of the leading part of `bytes` up to the first zero byte.
fn c_str_len_exec(bytes: &[u8]) -> (r: usize)
    ensures
        r == c_str_len(bytes@),
{
    let mut i: usize = 0;
    while i < bytes.len()
        invariant
            i <= bytes@.len(),
            forall|j: int| 0 <= j < i ==> bytes@[j] != 0,
        decreases bytes.len() - i,
    {
        if bytes[i] == 0 {
            proof {
                lemma_c_str_len(bytes@, i as int);
            }
            return i;
        }
        i = i + 1;
    }
    proof {
        lemma_c_str_len(bytes@, i as int);
    }
    i
}

/// A 32-byte field holding the first `n` bytes of `src`, then zeros.
fn field_from(src: &[u8], n: usize) -> (r: [u8; 32])
    requires
        n <= 32,
        n <= src@.len(),
    ensures
        r@ == src@.take(n as int) + zeros((32 - n) as nat),
{
    let mut buf = [0u8; 32];
    assert(buf@ =~= zeros(32));
    write_bytes(&mut buf, 0, &src[0..n]);
    assert(buf@ =~= src@.take(n as int) + zeros((32 - n) as nat));
    buf
}

impl ChildDeviceInfo {
    /// The record of an empty slot.
    pub fn disconnected(slot_index: u8) -> (r: ChildDeviceInfo)
        ensures
            !r.connected,
            r.slot_index == slot_index,
            r.vendor_id == 0,
            r.product_id == 0,
            r.product_name@ == zeros(32),
            r.product_name_len == 0,
            r.serial_number@ == zeros(32),
            r.serial_len == 0,
            r.tcp_port == 0,
    {
        let r = ChildDeviceInfo {
            connected: false,
            slot_index,
            vendor_id: 0,
            product_id: 0,
            product_name: [0u8; 32],
            product_name_len: 0,
            serial_number: [0u8; 32],
            serial_len: 0,
            tcp_port: 0,
        };
        assert(r.product_name@ =~= zeros(32));
        assert(r.serial_number@ =~= zeros(32));
        r
    }

    /// The record of an attached device; name and serial keep at most 31 of their bytes.
    pub fn connected(
        slot_index: u8,
        vendor_id: u16,
        product_id: u16,
        product_name: &str,
        serial: &str,
        tcp_port: u16,
    ) -> (r: ChildDeviceInfo)
        ensures
            r.connected,
            r.slot_index == slot_index,
            r.vendor_id == vendor_id,
            r.product_id == product_id,
            r.product_name_len == field_len(product_name.spec_bytes(), 31),
            r.product_name@ == field_bytes(product_name.spec_bytes(), 31),
            r.serial_len == field_len(serial.spec_bytes(), 31),
            r.serial_number@ == field_bytes(serial.spec_bytes(), 31),
            r.tcp_port == tcp_port,
    {
        let name_bytes = product_name.as_bytes();
        let name_len = min_usize(name_bytes.len(), 31);
        let name_buf = field_from(name_bytes, name_len);
        let bytes = serial.as_bytes();
        let len = min_usize(bytes.len(), 31);
        let serial_buf = field_from(bytes, len);
        ChildDeviceInfo {
            connected: true,
            slot_index,
            vendor_id,
            product_id,
            product_name: name_buf,
            product_name_len: name_len,
            serial_number: serial_buf,
            serial_len: len,
            tcp_port,
        }
    }

    /// The serial as a string, when its bytes are valid UTF-8.
    pub fn serial_as_str(&self) -> (r: Result<&str, ProtocolError>)
        requires
            self.serial_len <= 32,
        ensures
            r is Ok <==> valid_utf8(self.serial_number@.take(self.serial_len as int)),
            match r {
                Ok(s) => s.spec_bytes() == self.serial_number@.take(self.serial_len as int),
                Err(e) => e == ProtocolError::InvalidStringEncoding,
            },
    {
        match str_from_utf8(&self.serial_number[0..self.serial_len]) {
            Some(s) => Ok(s),
            None => Err(ProtocolError::InvalidStringEncoding),
        }
    }

    /// Parse a 128-byte `Device2Info` record: `None` unless byte 4 says connected.
    pub fn parse(buf: &[u8]) -> (r: Result<Option<ChildDeviceInfo>, ProtocolError>)
        ensures
            buf@.len() < 128 ==> r == Err::<Option<ChildDeviceInfo>, ProtocolError>(
                ProtocolError::BufferTooSmall,
            ),
            buf@.len() >= 128 && buf@[4] != 0x02 ==> r == Ok::<
                Option<ChildDeviceInfo>,
                ProtocolError,
            >(None),
            buf@.len() >= 128 && buf@[4] == 0x02 ==> (r matches Ok(Some(p)) && parsed_child(
                p,
                buf@,
            )),
    {
        if buf.len() < 128 {
            return Err(ProtocolError::BufferTooSmall);
        }
        if buf[4] != 0x02 {
            return Ok(None);
        }
        let vendor_id = u16_of_le(buf[26], buf[27]);
        let product_id = u16_of_le(buf[28], buf[29]);
        let name_slice = &buf[32..64];
        let product_name_len = c_str_len_exec(name_slice);
        proof {
            lemma_c_str_len(name_slice@, 0);
        }
        let product_name = field_from(name_slice, product_name_len);
        let serial_slice = &buf[94..126];
        let serial_len = c_str_len_exec(serial_slice);
        proof {
            lemma_c_str_len(serial_slice@, 0);
        }
        let serial_number = field_from(serial_slice, serial_len);
        let tcp_port = u16_of_le(buf[126], buf[127]);
        Ok(
            Some(
                ChildDeviceInfo {
                    connected: true,
                    slot_index: buf[5],
                    vendor_id,
                    product_id,
                    product_name,
                    product_name_len,
                    serial_number,
                    serial_len,
                    tcp_port,
                },
            ),
        )
    }

    /// Write the 128-byte `Device2Info` record of this device for `slot_index`.
    #[verifier::rlimit(100)]
    #[verifier::spinoff_prover]
    pub fn build_payload(&self, is_push_notification: bool, slot_index: u8, out: &mut [u8; 128])
        ensures
            final(out)@ == child_payload_bytes(*self, is_push_notification, slot_index),
    {
        zero_range(out, 0, 128);
        if is_push_notification {
            out[0] = 0x01;
            out[1] = 0x0b;
        } else {
            out[0] = 0x03;
            out[1] = 0x1c;
        }
        out[2] = 124;
        out[3] = 0;
        if self.connected {
            out[4] = 0x02;
            out[5] = slot_index;
            let v = u16_to_le(self.vendor_id);
            let p = u16_to_le(self.product_id);
            out[26] = v[0];
            out[27] = v[1];
            out[28] = p[0];
            out[29] = p[1];
            out[30] = 0x00;
            out[31] = 0x01;
            let name_len = min_usize(self.product_name_len, 31);
            write_bytes(out, 32, &self.product_name[0..name_len]);
            let mfg: [u8; 6] = [0x45, 0x6c, 0x67, 0x61, 0x74, 0x6f];
            write_bytes(out, 64, &mfg);
            let len = min_usize(self.serial_len, 31);
            write_bytes(out, 94, &self.serial_number[0..len]);
            let t = u16_to_le(self.tcp_port);
            out[126] = t[0];
            out[127] = t[1];
            assert(mfg@ =~= elgato_bytes());
        } else {
            out[4] = 0x00;
        }
        assert(out@ =~= child_payload_bytes(*self, is_push_notification, slot_index));
    }
}

/// A 32-byte text field of length `n`: no zero byte before `n`, zeros from `n` on.
pub open spec fn well_formed_field(f: Seq<u8>, n: int) -> bool {
    &&& f.len() == 32
    &&& 0 <= n <= 31
    &&& forall|j: int| 0 <= j < n ==> f[j] != 0
    &&& f == f.take(n) + zeros((32 - n) as nat)
}

/// A connected record whose name and serial are well-formed text fields, as
/// `connected` makes them from texts without zero bytes.
pub open spec fn well_formed_child(c: ChildDeviceInfo) -> bool {
    &&& c.connected
    &&& well_formed_field(c.product_name@, c.product_name_len as int)
    &&& well_formed_field(c.serial_number@, c.serial_len as int)
}

/// Two records agree on every field, the text fields by their bytes.
pub open spec fn same_child(a: ChildDeviceInfo, b: ChildDeviceInfo) -> bool {
    &&& a.connected == b.connected
    &&& a.slot_index == b.slot_index
    &&& a.vendor_id == b.vendor_id
    &&& a.product_id == b.product_id
    &&& a.product_name@ == b.product_name@
    &&& a.product_name_len == b.product_name_len
    &&& a.serial_number@ == b.serial_number@
    &&& a.serial_len == b.serial_len
    &&& a.tcp_port == b.tcp_port
}

/// The field that `connected` makes of a text without zero bytes is well-formed.
pub proof fn lemma_field_well_formed(s: Seq<u8>)
    requires
        forall|j: int| 0 <= j < s.len() ==> s[j] != 0,
    ensures
        well_formed_field(field_bytes(s, 31), field_len(s, 31)),
{
    let n = field_len(s, 31);
    let f = field_bytes(s, 31);
    assert(f.take(n) =~= s.take(n));
    assert(f =~= f.take(n) + zeros((32 - n) as nat));
}

/// A well-formed text field of length `n` reads back as length `n`.
pub proof fn lemma_field_reads_back(f: Seq<u8>, n: int)
    requires
        well_formed_field(f, n),
    ensures
        c_str_len(f) == n,
        f.take(c_str_len(f) as int) + zeros((32 - c_str_len(f)) as nat) == f,
{
    assert(f[n] == f.take(n).add(zeros((32 - n) as nat))[n]);
    assert(is_c_str_len(f, n));
    lemma_c_str_len(f, n);
}

/// Parsing the record that `build_payload` writes for a well-formed connected
/// device, at its own slot, gives the device back; the record of a device that
/// is not connected parses as no device.
pub proof fn lemma_child_roundtrip(c: ChildDeviceInfo, is_push: bool, p: ChildDeviceInfo)
    ensures
        child_payload_bytes(c, is_push, c.slot_index).len() == 128,
        !c.connected ==> child_payload_bytes(c, is_push, c.slot_index)[4] != 0x02,
        c.connected ==> child_payload_bytes(c, is_push, c.slot_index)[4] == 0x02,
        well_formed_child(c) && parsed_child(p, child_payload_bytes(c, is_push, c.slot_index))
            ==> same_child(p, c),
{
    let b = child_payload_bytes(c, is_push, c.slot_index);
    if c.connected {
        let nl = if c.product_name_len < 31 {
            c.product_name_len as int
        } else {
            31
        };
        let sl = if c.serial_len < 31 {
            c.serial_len as int
        } else {
            31
        };
        assert(b.len() == 128);
        assert(b[4] == 0x02);
        if well_formed_child(c) && parsed_child(p, b) {
            assert(b.subrange(32, 64) =~= c.product_name@.take(nl) + zeros((32 - nl) as nat));
            assert(b.subrange(94, 126) =~= c.serial_number@.take(sl) + zeros((32 - sl) as nat));
            lemma_field_reads_back(c.product_name@, nl);
            lemma_field_reads_back(c.serial_number@, sl);
            assert(b[5] == c.slot_index);
            assert(b[26] == le_u16(c.vendor_id)[0]);
            assert(b[27] == le_u16(c.vendor_id)[1]);
            assert(b[28] == le_u16(c.product_id)[0]);
            assert(b[29] == le_u16(c.product_id)[1]);
            assert(b[126] == le_u16(c.tcp_port)[0]);
            assert(b[127] == le_u16(c.tcp_port)[1]);
            crate::le::lemma_u16_roundtrip(c.vendor_id);
            crate::le::lemma_u16_roundtrip(c.product_id);
            crate::le::lemma_u16_roundtrip(c.tcp_port);
        }
    } else {
        assert(b.len() == 128);
        assert(b[4] == 0u8);
    }
}

/// The serial of a record made by `connected` from a serial of at most 31
/// bytes reads back, through `serial_as_str`, as that very serial.
pub proof fn lemma_connected_serial_reads_back(c: ChildDeviceInfo, serial: &str)
    requires
        serial.spec_bytes().len() <= 31,
        c.serial_len == field_len(serial.spec_bytes(), 31),
        c.serial_number@ == field_bytes(serial.spec_bytes(), 31),
    ensures
        c.serial_len <= 32,
        valid_utf8(c.serial_number@.take(c.serial_len as int)),
        forall|s: &str| #[trigger]
            s.spec_bytes() == c.serial_number@.take(c.serial_len as int) ==> s@ == serial@,
{
    let b = serial.spec_bytes();
    assert(c.serial_number@.take(c.serial_len as int) =~= b);
    vstd::utf8::encode_utf8_valid_utf8(serial@);
    vstd::utf8::encode_utf8_decode_utf8(serial@);
    assert forall|s: &str| #[trigger]
        s.spec_bytes() == c.serial_number@.take(c.serial_len as int) implies s@ == serial@ by {
        vstd::utf8::encode_utf8_decode_utf8(s@);
    }
}

/// A prefix of a valid UTF-8 text is valid UTF-8 exactly when it ends on a
/// character boundary of the text.
pub proof fn lemma_valid_prefix_iff_char_boundary(b: Seq<u8>, n: int)
    requires
        valid_utf8(b),
        0 <= n <= b.len(),
    ensures
        valid_utf8(b.take(n)) <==> vstd::utf8::is_char_boundary(b, n),
{
    vstd::utf8::is_char_boundary_start_end_of_seq(b);
    assert(b.take(n) =~= b.subrange(0, n));
    if vstd::utf8::is_char_boundary(b, n) {
        vstd::utf8::valid_utf8_split(b, n);
    } else {
        vstd::utf8::is_char_boundary_iff_not_is_continuation_byte(b, n);
        let rest = b.subrange(n, b.len() as int);
        assert(rest[0] == b[n]);
        assert(!vstd::utf8::valid_first_scalar(rest));
        assert(!valid_utf8(rest));
        if valid_utf8(b.take(n)) {
            vstd::utf8::partial_valid_partial_invalid_utf8(b, n);
        }
    }
}

/// The serial of a record that `connected` makes from any serial `s` keeps
/// its first `min(len, 31)` bytes, and reads back through `serial_as_str`
/// exactly when that cut falls on a character boundary of `s`: the bytes are
/// then valid UTF-8, and the text read back has exactly those bytes.
pub proof fn lemma_connected_serial_cut(c: ChildDeviceInfo, s: &str)
    requires
        c.serial_len == field_len(s.spec_bytes(), 31),
        c.serial_number@ == field_bytes(s.spec_bytes(), 31),
    ensures
        c.serial_len == (if s.spec_bytes().len() < 31 {
            s.spec_bytes().len() as int
        } else {
            31
        }),
        c.serial_len <= 32,
        c.serial_number@.take(c.serial_len as int) == s.spec_bytes().take(c.serial_len as int),
        valid_utf8(c.serial_number@.take(c.serial_len as int)) <==> vstd::utf8::is_char_boundary(
            s.spec_bytes(),
            c.serial_len as int,
        ),
{
    let b = s.spec_bytes();
    let n = c.serial_len as int;
    assert(c.serial_number@.take(n) =~= b.take(n));
    vstd::utf8::encode_utf8_valid_utf8(s@);
    lemma_valid_prefix_iff_char_boundary(b, n);
}

/// Wrap a payload into a complete CORA response frame (RESULT flag, GetReport).
pub fn build_cora_response_frame(message_id: u32, payload: &[u8], out: &mut [u8]) -> (r: Result<
    usize,
    ProtocolError,
>)
    ensures
        r is Ok <==> old(out)@.len() >= 16 + payload@.len(),
        match r {
            Ok(n) => n == 16 + payload@.len() && final(out)@ == frame_bytes(
                CoraHeader {
                    flags: CoraFlags(0x0100),
                    hid_op: CoraHidOp::GetReport,
                    reserved: 0,
                    message_id,
                    payload_len: 0,
                },
                payload@,
            ) + old(out)@.skip(n as int),
            Err(e) => e == ProtocolError::BufferTooSmall && final(out)@ == old(out)@,
        },
{
    let header = CoraHeader::new(CoraFlags::result(), CoraHidOp::GetReport, message_id, payload.len());
    let frame = CoraFrame::new(header, payload);
    frame.encode(out)
}

/// Wrap an unsolicited push event (e.g. a child hotplug) into a CORA frame
/// (no flags, Write, message id 0).
pub fn build_cora_push_frame(payload: &[u8], out: &mut [u8]) -> (r: Result<usize, ProtocolError>)
    ensures
        r is Ok <==> old(out)@.len() >= 16 + payload@.len(),
        match r {
            Ok(n) => n == 16 + payload@.len() && final(out)@ == frame_bytes(
                CoraHeader {
                    flags: CoraFlags(0),
                    hid_op: CoraHidOp::Write,
                    reserved: 0,
                    message_id: 0,
                    payload_len: 0,
                },
                payload@,
            ) + old(out)@.skip(n as int),
            Err(e) => e == ProtocolError::BufferTooSmall && final(out)@ == old(out)@,
        },
{
    let header = CoraHeader::new(CoraFlags::none(), CoraHidOp::Write, 0, payload.len());
    let frame = CoraFrame::new(header, payload);
    frame.encode(out)
}

} // verus!
