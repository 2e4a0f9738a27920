//! Stream Deck hardware models, product IDs, and capabilities.

use vstd::prelude::*;

use crate::constants::{VENDOR_ID_CORSAIR, VENDOR_ID_ELGATO};

verus! {

/// The Stream Deck hardware families this dock knows.
#[derive(Debug, Clone, Copy, PartialEq, Eq, Structural)]
pub enum StreamDeckModel {
    Original,
    OriginalV2,
    OriginalMK2,
    OriginalMK2Scissor,
    Mini,
    XL,
    Plus,
    Pedal,
    Neo,
    Studio,
    Module6,
    Module15,
    Module32,
    PlusXL,
    GalleonK100,
}

/// The display name of a model.
pub open spec fn spec_model_name(m: StreamDeckModel) -> Seq<char> {
    match m {
        StreamDeckModel::Original => "Stream Deck"@,
        StreamDeckModel::OriginalV2 => "Stream Deck (v2)"@,
        StreamDeckModel::OriginalMK2 => "Stream Deck MK.2"@,
        StreamDeckModel::OriginalMK2Scissor => "Stream Deck MK.2 (Scissor)"@,
        StreamDeckModel::Mini => "Stream Deck Mini"@,
        StreamDeckModel::XL => "Stream Deck XL"@,
        StreamDeckModel::Plus => "Stream Deck +"@,
        StreamDeckModel::Pedal => "Stream Deck Pedal"@,
        StreamDeckModel::Neo => "Stream Deck Neo"@,
        StreamDeckModel::Studio => "Stream Deck Studio"@,
        StreamDeckModel::Module6 => "Stream Deck 6 Module"@,
        StreamDeckModel::Module15 => "Stream Deck 15 Module"@,
        StreamDeckModel::Module32 => "Stream Deck 32 Module"@,
        StreamDeckModel::PlusXL => "Stream Deck + XL"@,
        StreamDeckModel::GalleonK100 => "Corsair Galleon K100"@,
    }
}

/// The number of keys of a model.
pub open spec fn spec_key_count(m: StreamDeckModel) -> usize {
    match m {
        StreamDeckModel::Original | StreamDeckModel::OriginalV2 | StreamDeckModel::OriginalMK2
        | StreamDeckModel::OriginalMK2Scissor | StreamDeckModel::Module15 => 15,
        StreamDeckModel::Mini | StreamDeckModel::Module6 => 6,
        StreamDeckModel::XL | StreamDeckModel::Module32 => 32,
        StreamDeckModel::Plus => 8,
        StreamDeckModel::Pedal => 3,
        StreamDeckModel::Neo => 8,
        StreamDeckModel::Studio => 32,
        StreamDeckModel::PlusXL => 16,
        StreamDeckModel::GalleonK100 => 6,
    }
}

/// The number of rotary encoders of a model.
pub open spec fn spec_encoder_count(m: StreamDeckModel) -> usize {
    match m {
        StreamDeckModel::Plus => 4,
        StreamDeckModel::PlusXL => 4,
        StreamDeckModel::Studio => 2,
        _ => 0,
    }
}

/// Whether a model has an LCD touch strip.
pub open spec fn spec_has_lcd_strip(m: StreamDeckModel) -> bool {
    m == StreamDeckModel::Plus || m == StreamDeckModel::PlusXL || m == StreamDeckModel::Neo
}

impl StreamDeckModel {
    /// The display name of this model.
    pub fn name(&self) -> (r: &'static str)
        ensures
            r@ == spec_model_name(*self),
    {
        match self {
            StreamDeckModel::Original => "Stream Deck",
            StreamDeckModel::OriginalV2 => "Stream Deck (v2)",
            StreamDeckModel::OriginalMK2 => "Stream Deck MK.2",
            StreamDeckModel::OriginalMK2Scissor => "Stream Deck MK.2 (Scissor)",
            StreamDeckModel::Mini => "Stream Deck Mini",
            StreamDeckModel::XL => "Stream Deck XL",
            StreamDeckModel::Plus => "Stream Deck +",
            StreamDeckModel::Pedal => "Stream Deck Pedal",
            StreamDeckModel::Neo => "Stream Deck Neo",
            StreamDeckModel::Studio => "Stream Deck Studio",
            StreamDeckModel::Module6 => "Stream Deck 6 Module",
            StreamDeckModel::Module15 => "Stream Deck 15 Module",
            StreamDeckModel::Module32 => "Stream Deck 32 Module",
            StreamDeckModel::PlusXL => "Stream Deck + XL",
            StreamDeckModel::GalleonK100 => "Corsair Galleon K100",
        }
    }

    /// The number of keys of this model.
    pub fn key_count(&self) -> (r: usize)
        ensures
            r == spec_key_count(*self),
    {
        match self {
            StreamDeckModel::Original | StreamDeckModel::OriginalV2 | StreamDeckModel::OriginalMK2
            | StreamDeckModel::OriginalMK2Scissor | StreamDeckModel::Module15 => 15,
            StreamDeckModel::Mini | StreamDeckModel::Module6 => 6,
            StreamDeckModel::XL | StreamDeckModel::Module32 => 32,
            StreamDeckModel::Plus => 8,
            StreamDeckModel::Pedal => 3,
            StreamDeckModel::Neo => 8,
            StreamDeckModel::Studio => 32,
            StreamDeckModel::PlusXL => 16,
            StreamDeckModel::GalleonK100 => 6,
        }
    }

    /// The number of rotary encoders of this model.
    pub fn encoder_count(&self) -> (r: usize)
        ensures
            r == spec_encoder_count(*self),
    {
        match self {
            StreamDeckModel::Plus => 4,
            StreamDeckModel::PlusXL => 4,
            StreamDeckModel::Studio => 2,
            _ => 0,
        }
    }

    /// Whether this model has an LCD touch strip.
    pub fn has_lcd_strip(&self) -> (r: bool)
        ensures
            r == spec_has_lcd_strip(*self),
    {
        match self {
            StreamDeckModel::Plus | StreamDeckModel::PlusXL | StreamDeckModel::Neo => true,
            _ => false,
        }
    }
}

/// The vendors whose devices are Stream Decks: Elgato and Corsair.
pub open spec fn spec_is_streamdeck_vendor(vendor_id: u16) -> bool {
    vendor_id == VENDOR_ID_ELGATO || vendor_id == VENDOR_ID_CORSAIR
}

/// The model a vendor and product id pair identifies, if any.
pub open spec fn spec_match_model(vendor_id: u16, product_id: u16) -> Option<StreamDeckModel> {
    if vendor_id == VENDOR_ID_ELGATO {
        if product_id == 0x0060 {
            Some(StreamDeckModel::Original)
        } else if product_id == 0x006d {
            Some(StreamDeckModel::OriginalV2)
        } else if product_id == 0x0080 {
            Some(StreamDeckModel::OriginalMK2)
        } else if product_id == 0x00a5 {
            Some(StreamDeckModel::OriginalMK2Scissor)
        } else if product_id == 0x0063 || product_id == 0x0090 || product_id == 0x00b3 {
            Some(StreamDeckModel::Mini)
        } else if product_id == 0x006c || product_id == 0x008f {
            Some(StreamDeckModel::XL)
        } else if product_id == 0x0084 {
            Some(StreamDeckModel::Plus)
        } else if product_id == 0x0086 {
            Some(StreamDeckModel::Pedal)
        } else if product_id == 0x009a {
            Some(StreamDeckModel::Neo)
        } else if product_id == 0x00aa {
            Some(StreamDeckModel::Studio)
        } else if product_id == 0x00b8 {
            Some(StreamDeckModel::Module6)
        } else if product_id == 0x00b9 {
            Some(StreamDeckModel::Module15)
        } else if product_id == 0x00ba {
            Some(StreamDeckModel::Module32)
        } else if product_id == 0x00c6 {
            Some(StreamDeckModel::PlusXL)
        } else {
            None
        }
    } else if vendor_id == VENDOR_ID_CORSAIR {
        if product_id == 0x2b18 {
            Some(StreamDeckModel::GalleonK100)
        } else {
            None
        }
    } else {
        None
    }
}

/// Whether a USB vendor id belongs to a Stream Deck maker.
pub fn is_streamdeck_vendor(vendor_id: u16) -> (r: bool)
    ensures
        r == spec_is_streamdeck_vendor(vendor_id),
{
    vendor_id == VENDOR_ID_ELGATO || vendor_id == VENDOR_ID_CORSAIR
}

/// The model a vendor and product id pair identifies, if any.
pub fn match_streamdeck_model(vendor_id: u16, product_id: u16) -> (r: Option<StreamDeckModel>)
    ensures
        r == spec_match_model(vendor_id, product_id),
{
    if vendor_id == VENDOR_ID_ELGATO {
        match product_id {
            0x0060 => Some(StreamDeckModel::Original),
            0x006d => Some(StreamDeckModel::OriginalV2),
            0x0080 => Some(StreamDeckModel::OriginalMK2),
            0x00a5 => Some(StreamDeckModel::OriginalMK2Scissor),
            0x0063 | 0x0090 | 0x00b3 => Some(StreamDeckModel::Mini),
            0x006c | 0x008f => Some(StreamDeckModel::XL),
            0x0084 => Some(StreamDeckModel::Plus),
            0x0086 => Some(StreamDeckModel::Pedal),
            0x009a => Some(StreamDeckModel::Neo),
            0x00aa => Some(StreamDeckModel::Studio),
            0x00b8 => Some(StreamDeckModel::Module6),
            0x00b9 => Some(StreamDeckModel::Module15),
            0x00ba => Some(StreamDeckModel::Module32),
            0x00c6 => Some(StreamDeckModel::PlusXL),
            _ => None,
        }
    } else if vendor_id == VENDOR_ID_CORSAIR {
        match product_id {
            0x2b18 => Some(StreamDeckModel::GalleonK100),
            _ => None,
        }
    } else {
        None
    }
}

/// Every recognized model comes from a Stream Deck vendor.
pub proof fn lemma_matched_model_vendor(vendor_id: u16, product_id: u16)
    ensures
        spec_match_model(vendor_id, product_id) is Some ==> spec_is_streamdeck_vendor(vendor_id),
{
}

/// The documented USB ids of the models: each (vendor, product) pair below is
/// identified as its model, and no other pair is identified as any model.
pub proof fn lemma_model_id_table()
    ensures
        spec_match_model(0x0fd9, 0x0060) == Some(StreamDeckModel::Original),
        spec_match_model(0x0fd9, 0x006d) == Some(StreamDeckModel::OriginalV2),
        spec_match_model(0x0fd9, 0x0080) == Some(StreamDeckModel::OriginalMK2),
        spec_match_model(0x0fd9, 0x00a5) == Some(StreamDeckModel::OriginalMK2Scissor),
        spec_match_model(0x0fd9, 0x0063) == Some(StreamDeckModel::Mini),
        spec_match_model(0x0fd9, 0x0090) == Some(StreamDeckModel::Mini),
        spec_match_model(0x0fd9, 0x00b3) == Some(StreamDeckModel::Mini),
        spec_match_model(0x0fd9, 0x006c) == Some(StreamDeckModel::XL),
        spec_match_model(0x0fd9, 0x008f) == Some(StreamDeckModel::XL),
        spec_match_model(0x0fd9, 0x0084) == Some(StreamDeckModel::Plus),
        spec_match_model(0x0fd9, 0x0086) == Some(StreamDeckModel::Pedal),
        spec_match_model(0x0fd9, 0x009a) == Some(StreamDeckModel::Neo),
        spec_match_model(0x0fd9, 0x00aa) == Some(StreamDeckModel::Studio),
        spec_match_model(0x0fd9, 0x00b8) == Some(StreamDeckModel::Module6),
        spec_match_model(0x0fd9, 0x00b9) == Some(StreamDeckModel::Module15),
        spec_match_model(0x0fd9, 0x00ba) == Some(StreamDeckModel::Module32),
        spec_match_model(0x0fd9, 0x00c6) == Some(StreamDeckModel::PlusXL),
        spec_match_model(0x1b1c, 0x2b18) == Some(StreamDeckModel::GalleonK100),
        forall|v: u16, p: u16|
            #[trigger] spec_match_model(v, p) is Some ==> (v == 0x0fd9 && (p == 0x0060 || p == 0x006d || p == 0x0080 || p == 0x00a5 || p == 0x0063 || p == 0x0090 || p == 0x00b3 || p == 0x006c || p == 0x008f || p == 0x0084 || p == 0x0086 || p == 0x009a || p == 0x00aa || p == 0x00b8 || p == 0x00b9 || p == 0x00ba || p == 0x00c6)) || (v == 0x1b1c
                && p == 0x2b18),
{
}

/// The documented capabilities of each model: its display name, keys, rotary
/// encoders, and whether it has an LCD touch strip.
pub proof fn lemma_model_capability_table()
    ensures
        spec_model_name(StreamDeckModel::Original) == "Stream Deck"@,
        spec_model_name(StreamDeckModel::OriginalV2) == "Stream Deck (v2)"@,
        spec_model_name(StreamDeckModel::OriginalMK2) == "Stream Deck MK.2"@,
        spec_model_name(StreamDeckModel::OriginalMK2Scissor) == "Stream Deck MK.2 (Scissor)"@,
        spec_model_name(StreamDeckModel::Mini) == "Stream Deck Mini"@,
        spec_model_name(StreamDeckModel::XL) == "Stream Deck XL"@,
        spec_model_name(StreamDeckModel::Plus) == "Stream Deck +"@,
        spec_model_name(StreamDeckModel::Pedal) == "Stream Deck Pedal"@,
        spec_model_name(StreamDeckModel::Neo) == "Stream Deck Neo"@,
        spec_model_name(StreamDeckModel::Studio) == "Stream Deck Studio"@,
        spec_model_name(StreamDeckModel::Module6) == "Stream Deck 6 Module"@,
        spec_model_name(StreamDeckModel::Module15) == "Stream Deck 15 Module"@,
        spec_model_name(StreamDeckModel::Module32) == "Stream Deck 32 Module"@,
        spec_model_name(StreamDeckModel::PlusXL) == "Stream Deck + XL"@,
        spec_model_name(StreamDeckModel::GalleonK100) == "Corsair Galleon K100"@,
        spec_key_count(StreamDeckModel::Original) == 15 && spec_encoder_count(StreamDeckModel::Original) == 0 && spec_has_lcd_strip(StreamDeckModel::Original) == false,
        spec_key_count(StreamDeckModel::OriginalV2) == 15 && spec_encoder_count(StreamDeckModel::OriginalV2) == 0 && spec_has_lcd_strip(StreamDeckModel::OriginalV2) == false,
        spec_key_count(StreamDeckModel::OriginalMK2) == 15 && spec_encoder_count(StreamDeckModel::OriginalMK2) == 0 && spec_has_lcd_strip(StreamDeckModel::OriginalMK2) == false,
        spec_key_count(StreamDeckModel::OriginalMK2Scissor) == 15 && spec_encoder_count(StreamDeckModel::OriginalMK2Scissor) == 0 && spec_has_lcd_strip(StreamDeckModel::OriginalMK2Scissor) == false,
        spec_key_count(StreamDeckModel::Mini) == 6 && spec_encoder_count(StreamDeckModel::Mini) == 0 && spec_has_lcd_strip(StreamDeckModel::Mini) == false,
        spec_key_count(StreamDeckModel::XL) == 32 && spec_encoder_count(StreamDeckModel::XL) == 0 && spec_has_lcd_strip(StreamDeckModel::XL) == false,
        spec_key_count(StreamDeckModel::Plus) == 8 && spec_encoder_count(StreamDeckModel::Plus) == 4 && spec_has_lcd_strip(StreamDeckModel::Plus) == true,
        spec_key_count(StreamDeckModel::Pedal) == 3 && spec_encoder_count(StreamDeckModel::Pedal) == 0 && spec_has_lcd_strip(StreamDeckModel::Pedal) == false,
        spec_key_count(StreamDeckModel::Neo) == 8 && spec_encoder_count(StreamDeckModel::Neo) == 0 && spec_has_lcd_strip(StreamDeckModel::Neo) == true,
        spec_key_count(StreamDeckModel::Studio) == 32 && spec_encoder_count(StreamDeckModel::Studio) == 2 && spec_has_lcd_strip(StreamDeckModel::Studio) == false,
        spec_key_count(StreamDeckModel::Module6) == 6 && spec_encoder_count(StreamDeckModel::Module6) == 0 && spec_has_lcd_strip(StreamDeckModel::Module6) == false,
        spec_key_count(StreamDeckModel::Module15) == 15 && spec_encoder_count(StreamDeckModel::Module15) == 0 && spec_has_lcd_strip(StreamDeckModel::Module15) == false,
        spec_key_count(StreamDeckModel::Module32) == 32 && spec_encoder_count(StreamDeckModel::Module32) == 0 && spec_has_lcd_strip(StreamDeckModel::Module32) == false,
        spec_key_count(StreamDeckModel::PlusXL) == 16 && spec_encoder_count(StreamDeckModel::PlusXL) == 4 && spec_has_lcd_strip(StreamDeckModel::PlusXL) == true,
        spec_key_count(StreamDeckModel::GalleonK100) == 6 && spec_encoder_count(StreamDeckModel::GalleonK100) == 0 && spec_has_lcd_strip(StreamDeckModel::GalleonK100) == false,
{
}

} // verus!
