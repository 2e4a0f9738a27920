//! Generic Stream Deck hardware/surface interface for bare-metal boards.

use vstd::prelude::*;

use crate::bufops::{zero_range, zeros};
use crate::le::{le_u16, u16_to_le};

verus! {

/// A button, encoder or touch event read from a surface.
#[derive(Debug, Clone, Copy, PartialEq, Eq, Structural)]
pub enum SurfaceEvent {
    KeyDown { key_index: u8 },
    KeyUp { key_index: u8 },
    DialRotate { dial_index: u8, delta: i8 },
    DialPress { dial_index: u8 },
    DialRelease { dial_index: u8 },
    TouchTap { dial_index: u8, x: u16, y: u16 },
}

/// Generic interface that a board implementation provides for Stream Deck hardware.
pub trait StreamDeckSurface: Sized {
    /// The vendor id the surface reports.
    spec fn spec_vendor_id(&self) -> u16;

    /// Vendor ID (0x0fd9 for Elgato devices).
    fn vendor_id(&self) -> (r: u16)
        ensures
            r == self.spec_vendor_id(),
    ;

    /// The product id the surface reports.
    spec fn spec_product_id(&self) -> u16;

    /// Product ID (e.g. 0x0084 for Plus, 0x0080 for MK.2, 0x0063 for Mini).
    fn product_id(&self) -> (r: u16)
        ensures
            r == self.spec_product_id(),
    ;

    /// The model name the surface reports.
    spec fn spec_model_name(&self) -> Seq<char>;

    /// Device model display name.
    fn model_name(&self) -> (r: &str)
        ensures
            r@ == self.spec_model_name(),
    ;

    /// The serial number the surface reports.
    spec fn spec_serial_number(&self) -> Seq<char>;

    /// Serial number string.
    fn serial_number(&self) -> (r: &str)
        ensures
            r@ == self.spec_serial_number(),
    ;

    /// The firmware version the surface reports.
    spec fn spec_firmware_version(&self) -> Seq<char>;

    /// Firmware version string ("1.0.0.0" when the board has no other).
    fn firmware_version(&self) -> (r: &str)
        ensures
            r@ == self.spec_firmware_version(),
    ;

    /// Number of physical keys.
    fn key_count(&self) -> usize;

    /// Number of rotary encoders.
    fn dial_count(&self) -> (r: usize)
        default_ensures
            r == 0,
    {
        0
    }

    /// `after` is the surface `before` once its brightness was set to
    /// `percentage`; each surface says what that means for it.
    spec fn brightness_set(before: Self, after: Self, percentage: u8) -> bool;

    /// Set brightness (0..=100%).
    fn set_brightness(&mut self, percentage: u8)
        ensures
            Self::brightness_set(*old(self), *final(self), percentage),
    ;

    /// `after` is the surface `before` once it was handed chunk `chunk_index`
    /// (the last one when `is_last`) of the image of key `key_index`, with
    /// bytes `data`; each surface says what that means for it.
    spec fn image_chunk_written(
        before: Self,
        after: Self,
        key_index: u8,
        is_last: bool,
        chunk_index: u16,
        data: Seq<u8>,
    ) -> bool;

    /// Write an image chunk for a key or LCD display.
    fn write_image_chunk(&mut self, key_index: u8, is_last: bool, chunk_index: u16, data: &[u8])
        ensures
            Self::image_chunk_written(*old(self), *final(self), key_index, is_last, chunk_index, data@),
    ;

    /// Poll for any pending button, encoder, or touch event.
    fn poll_event(&mut self) -> (r: Option<SurfaceEvent>)
        default_ensures
            r is None,
    {
        None
    }
}

/// A virtual Stream Deck Plus surface for boards with or without physical keys.
pub struct VirtualStreamDeckPlus<'a> {
    pub serial: &'a str,
    pub firmware: &'a str,
    pub brightness: u8,
}

impl<'a> VirtualStreamDeckPlus<'a> {
    /// A surface with the given serial, firmware 2.0.3.5 and full brightness.
    pub fn new(serial: &'a str) -> (r: VirtualStreamDeckPlus<'a>)
        ensures
            r.serial == serial,
            r.firmware@ == "2.0.3.5"@,
            r.brightness == 100,
    {
        VirtualStreamDeckPlus { serial, firmware: "2.0.3.5", brightness: 100 }
    }
}

impl<'a> StreamDeckSurface for VirtualStreamDeckPlus<'a> {
    open spec fn spec_vendor_id(&self) -> u16 {
        0x0fd9
    }

    fn vendor_id(&self) -> (r: u16)
        ensures
            r == 0x0fd9,
    {
        0x0fd9
    }

    open spec fn spec_product_id(&self) -> u16 {
        0x0084
    }

    fn product_id(&self) -> (r: u16)
        ensures
            r == 0x0084,
    {
        0x0084
    }

    open spec fn spec_model_name(&self) -> Seq<char> {
        "Stream Deck +"@
    }

    fn model_name(&self) -> (r: &str)
        ensures
            r@ == "Stream Deck +"@,
    {
        "Stream Deck +"
    }

    open spec fn spec_serial_number(&self) -> Seq<char> {
        self.serial@
    }

    fn serial_number(&self) -> (r: &str)
        ensures
            r == self.serial,
    {
        self.serial
    }

    open spec fn spec_firmware_version(&self) -> Seq<char> {
        self.firmware@
    }

    fn firmware_version(&self) -> (r: &str)
        ensures
            r == self.firmware,
    {
        self.firmware
    }

    fn key_count(&self) -> (r: usize)
        ensures
            r == 8,
    {
        8
    }

    fn dial_count(&self) -> (r: usize)
        ensures
            r == 4,
    {
        4
    }

    /// The brightness is `percentage`; serial and firmware stay.
    open spec fn brightness_set(before: Self, after: Self, percentage: u8) -> bool {
        after == (VirtualStreamDeckPlus { brightness: percentage, ..before })
    }

    fn set_brightness(&mut self, percentage: u8)
        ensures
            final(self).brightness == percentage,
            final(self).serial == old(self).serial,
            final(self).firmware == old(self).firmware,
    {
        self.brightness = percentage;
    }

    /// A virtual surface has no key displays: it stays as it is.
    open spec fn image_chunk_written(
        before: Self,
        after: Self,
        key_index: u8,
        is_last: bool,
        chunk_index: u16,
        data: Seq<u8>,
    ) -> bool {
        after == before
    }

    fn write_image_chunk(&mut self, key_index: u8, is_last: bool, chunk_index: u16, data: &[u8]) {
    }
}

/// The 512-byte input report of a surface event: report id 1, then the event
/// kind (0 keys, 3 dial, 2 touch strip) and its data.
pub open spec fn surface_event_report(e: SurfaceEvent) -> Seq<u8> {
    let base = zeros(512).update(0, 0x01u8);
    match e {
        SurfaceEvent::KeyDown { key_index } => {
            let idx = if key_index < 7 {
                key_index as int
            } else {
                7
            };
            base.update(1, 0x00u8).update(2, 0x08u8).update(4 + idx, 0x01u8)
        },
        SurfaceEvent::KeyUp { .. } => base.update(1, 0x00u8).update(2, 0x08u8),
        SurfaceEvent::DialRotate { dial_index, delta } => base.update(1, 0x03u8).update(
            2,
            dial_index,
        ).update(3, delta as u8),
        SurfaceEvent::DialPress { dial_index } => base.update(1, 0x03u8).update(2, dial_index).update(
            3,
            0x01u8,
        ),
        SurfaceEvent::DialRelease { dial_index } => base.update(1, 0x03u8).update(
            2,
            dial_index,
        ).update(3, 0x00u8),
        SurfaceEvent::TouchTap { dial_index, x, y } => base.update(1, 0x02u8).update(
            2,
            dial_index,
        ).update(4, le_u16(x)[0]).update(5, le_u16(x)[1]).update(6, le_u16(y)[0]).update(
            7,
            le_u16(y)[1],
        ),
    }
}

/// Write the input report of a surface event; returns its length, 512.
pub fn encode_surface_event(event: &SurfaceEvent, out: &mut [u8; 512]) -> (r: usize)
    ensures
        r == 512,
        final(out)@ == surface_event_report(*event),
{
    zero_range(out, 0, 512);
    assert(out@ =~= zeros(512));
    out[0] = 0x01;
    match event {
        SurfaceEvent::KeyDown { key_index } => {
            out[1] = 0x00;
            out[2] = 0x08;
            let idx: usize = if *key_index < 7 {
                *key_index as usize
            } else {
                7
            };
            out[4 + idx] = 0x01;
        },
        SurfaceEvent::KeyUp { key_index: _ } => {
            out[1] = 0x00;
            out[2] = 0x08;
        },
        SurfaceEvent::DialRotate { dial_index, delta } => {
            out[1] = 0x03;
            out[2] = *dial_index;
            out[3] = *delta as u8;
        },
        SurfaceEvent::DialPress { dial_index } => {
            out[1] = 0x03;
            out[2] = *dial_index;
            out[3] = 0x01;
        },
        SurfaceEvent::DialRelease { dial_index } => {
            out[1] = 0x03;
            out[2] = *dial_index;
            out[3] = 0x00;
        },
        SurfaceEvent::TouchTap { dial_index, x, y } => {
            out[1] = 0x02;
            out[2] = *dial_index;
            let xb = u16_to_le(*x);
            let yb = u16_to_le(*y);
            out[4] = xb[0];
            out[5] = xb[1];
            out[6] = yb[0];
            out[7] = yb[1];
        },
    }
    assert(out@ =~= surface_event_report(*event));
    512
}

} // verus!
