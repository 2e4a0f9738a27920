//! Protocol error definitions.

use vstd::prelude::*;
use vstd::string::StringExecFns;

verus! {

/// What can go wrong while framing, parsing or building CORA messages.
#[derive(Debug, Clone, Copy, PartialEq, Eq, Structural)]
pub enum ProtocolError {
    /// Buffer is smaller than the required header or payload size.
    BufferTooSmall,
    /// The stream does not begin with the valid CORA magic bytes.
    InvalidMagic,
    /// Unknown or unsupported HID opcode received.
    UnknownHidOp(u8),
    /// Message header specifies a payload larger than supported or available.
    PayloadLengthExceeded,
    /// Header was received only partially.
    IncompleteHeader,
    /// Frame was received only partially.
    IncompleteFrame { expected: usize, available: usize },
    /// Report ID in query or response was not recognized.
    UnknownReportId(u8),
    /// Payload formatting or offset layout is invalid.
    InvalidPayloadLayout,
    /// Serial string or version string is not valid ASCII / UTF-8.
    InvalidStringEncoding,
}

/// The text of a digit in base 16 (lower case), as `"0"`..`"f"`.
pub open spec fn digit_text(d: int) -> Seq<char> {
    if d == 0 {
        "0"@
    } else if d == 1 {
        "1"@
    } else if d == 2 {
        "2"@
    } else if d == 3 {
        "3"@
    } else if d == 4 {
        "4"@
    } else if d == 5 {
        "5"@
    } else if d == 6 {
        "6"@
    } else if d == 7 {
        "7"@
    } else if d == 8 {
        "8"@
    } else if d == 9 {
        "9"@
    } else if d == 10 {
        "a"@
    } else if d == 11 {
        "b"@
    } else if d == 12 {
        "c"@
    } else if d == 13 {
        "d"@
    } else if d == 14 {
        "e"@
    } else {
        "f"@
    }
}

/// The decimal text of `n`.
pub open spec fn decimal_text(n: nat) -> Seq<char>
    decreases n,
{
    if n < 10 {
        digit_text(n as int)
    } else {
        decimal_text(n / 10) + digit_text((n % 10) as int)
    }
}

/// The text of a byte as `{:#04x}` writes it: `0x` and two hexadecimal digits.
pub open spec fn hex_byte_text(b: u8) -> Seq<char> {
    "0x"@ + digit_text((b / 16) as int) + digit_text((b % 16) as int)
}

/// The message of an error.
pub open spec fn spec_error_message(e: ProtocolError) -> Seq<char> {
    match e {
        ProtocolError::BufferTooSmall => "Buffer is too small for the operation"@,
        ProtocolError::InvalidMagic => "Invalid CORA magic header bytes"@,
        ProtocolError::UnknownHidOp(op) => "Unknown HID opcode: "@ + hex_byte_text(op),
        ProtocolError::PayloadLengthExceeded => "Payload length exceeds maximum allowable size"@,
        ProtocolError::IncompleteHeader => "Incomplete CORA header received"@,
        ProtocolError::IncompleteFrame { expected, available } => "Incomplete frame: expected "@
            + decimal_text(expected as nat) + " bytes, got "@ + decimal_text(available as nat),
        ProtocolError::UnknownReportId(id) => "Unknown report ID: "@ + hex_byte_text(id),
        ProtocolError::InvalidPayloadLayout => "Invalid report payload layout or offsets"@,
        ProtocolError::InvalidStringEncoding => "String payload is not valid ASCII"@,
    }
}

/// The text of a digit below 16.
fn digit_str(d: usize) -> (r: &'static str)
    requires
        d < 16,
    ensures
        r@ == digit_text(d as int),
{
    match d {
        0 => "0",
        1 => "1",
        2 => "2",
        3 => "3",
        4 => "4",
        5 => "5",
        6 => "6",
        7 => "7",
        8 => "8",
        9 => "9",
        10 => "a",
        11 => "b",
        12 => "c",
        13 => "d",
        14 => "e",
        _ => "f",
    }
}

/// Append the decimal text of `n`.
fn append_decimal(s: &mut String, n: usize)
    ensures
        final(s)@ == old(s)@ + decimal_text(n as nat),
    decreases n,
{
    if n >= 10 {
        append_decimal(s, n / 10);
    }
    s.append(digit_str(n % 10));
    proof {
        if n >= 10 {
            assert(decimal_text(n as nat) == decimal_text((n / 10) as nat) + digit_text(
                (n % 10) as int,
            ));
        }
    }
}

/// Append a byte as `0x` and two hexadecimal digits.
fn append_hex_byte(s: &mut String, b: u8)
    ensures
        final(s)@ == old(s)@ + hex_byte_text(b),
{
    s.append("0x");
    s.append(digit_str((b / 16) as usize));
    s.append(digit_str((b % 16) as usize));
}

impl ProtocolError {
    /// The human-readable message of this error.
    pub fn message(&self) -> (r: String)
        ensures
            r@ == spec_error_message(*self),
    {
        match self {
            ProtocolError::BufferTooSmall => "Buffer is too small for the operation".to_owned(),
            ProtocolError::InvalidMagic => "Invalid CORA magic header bytes".to_owned(),
            ProtocolError::UnknownHidOp(op) => {
                let mut s = "Unknown HID opcode: ".to_owned();
                append_hex_byte(&mut s, *op);
                s
            },
            ProtocolError::PayloadLengthExceeded => "Payload length exceeds maximum allowable size".to_owned(),
            ProtocolError::IncompleteHeader => "Incomplete CORA header received".to_owned(),
            ProtocolError::IncompleteFrame { expected, available } => {
                let mut s = "Incomplete frame: expected ".to_owned();
                append_decimal(&mut s, *expected);
                s.append(" bytes, got ");
                append_decimal(&mut s, *available);
                s
            },
            ProtocolError::UnknownReportId(id) => {
                let mut s = "Unknown report ID: ".to_owned();
                append_hex_byte(&mut s, *id);
                s
            },
            ProtocolError::InvalidPayloadLayout => "Invalid report payload layout or offsets".to_owned(),
            ProtocolError::InvalidStringEncoding => "String payload is not valid ASCII".to_owned(),
        }
    }
}

} // verus!
