//! Protocol constants for the Elgato Network Dock and the CORA protocol.

use vstd::prelude::*;

verus! {

/// The 4-byte magic signature at the start of every CORA packet.
pub const CORA_MAGIC: [u8; 4] = [0x43, 0x93, 0x8a, 0x41];

/// Default TCP port for the primary Network Dock control service.
pub const DEFAULT_PRIMARY_TCP_PORT: u16 = 5343;

/// Default TCP port assigned for downstream child Stream Deck USB bridging.
pub const DEFAULT_SECONDARY_TCP_PORT: u16 = 5344;

/// Elgato USB Vendor ID (0x0fd9 = 4057).
pub const VENDOR_ID_ELGATO: u16 = 0x0fd9;

/// Corsair USB Vendor ID (0x1b1c).
pub const VENDOR_ID_CORSAIR: u16 = 0x1b1c;

/// Product ID reported by the Stream Deck Network Dock.
pub const PRODUCT_ID_NETWORK_DOCK: u16 = 0xffff;

/// Device type identifier reported in the mDNS TXT record (`dt=215`).
pub const DEVICE_TYPE_NETWORK_DOCK: u8 = 215;

/// Milliseconds without traffic after which a client is dropped.
pub const TIMEOUT_DURATION_MS: u64 = 5000;

/// Interval between keepalive probes, in milliseconds.
pub const KEEPALIVE_INTERVAL_MS: u64 = 2500;

/// Size of the CORA message header in bytes.
pub const CORA_HEADER_SIZE: usize = 16;

/// The magic signature as a sequence, for specifications.
pub open spec fn magic_seq() -> Seq<u8> {
    seq![0x43u8, 0x93u8, 0x8au8, 0x41u8]
}

/// The constant array and its specification agree.
pub proof fn lemma_cora_magic_value()
    ensures
        CORA_MAGIC@ == magic_seq(),
{
    assert(CORA_MAGIC@ =~= magic_seq());
}

} // verus!
