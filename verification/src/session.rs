//! The keepalive side of a client connection: probes on every tick, and the
//! timeout that ends a silent connection.

use vstd::prelude::*;

use crate::constants::TIMEOUT_DURATION_MS;
use crate::cora::frame_bytes;
use crate::keepalive::{build_keepalive_probe_vec, probe_header, probe_payload};

verus! {

/// The keepalive state of one connection.
#[derive(Debug, Clone, Copy, PartialEq, Eq, Structural)]
pub struct KeepaliveTimer {
    pub connection_id: u8,
    pub message_seq: u32,
}

impl KeepaliveTimer {
    /// A connection's timer; its first probe has message id 1.
    pub fn new(connection_id: u8) -> (r: KeepaliveTimer)
        ensures
            r.connection_id == connection_id,
            r.message_seq == 1,
    {
        KeepaliveTimer { connection_id, message_seq: 1 }
    }

    /// The probe sent as soon as a client connects (message id 1).
    pub fn initial_probe(&self) -> (r: Vec<u8>)
        ensures
            r@ == frame_bytes(probe_header(1), probe_payload(self.connection_id)),
    {
        build_keepalive_probe_vec(self.connection_id, 1)
    }

    /// A keepalive tick after `idle_ms` milliseconds without data from the
    /// client: `None` when the client timed out (more than 5 s of silence),
    /// else the next probe, with the message sequence advanced (wrapping).
    pub fn on_tick(&mut self, idle_ms: u64) -> (r: Option<Vec<u8>>)
        ensures
            final(self).connection_id == old(self).connection_id,
            idle_ms > TIMEOUT_DURATION_MS ==> r is None && final(self).message_seq == old(
                self,
            ).message_seq,
            idle_ms <= TIMEOUT_DURATION_MS ==> final(self).message_seq == (if old(self).message_seq
                == u32::MAX {
                0
            } else {
                old(self).message_seq + 1
            }) && (r matches Some(v) && v@ == frame_bytes(
                probe_header(final(self).message_seq),
                probe_payload(old(self).connection_id),
            )),
    {
        if idle_ms > TIMEOUT_DURATION_MS {
            return None;
        }
        self.message_seq = self.message_seq.wrapping_add(1);
        Some(build_keepalive_probe_vec(self.connection_id, self.message_seq))
    }
}

} // verus!
