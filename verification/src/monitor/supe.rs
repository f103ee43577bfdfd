//! Rows of the SSP ("supe") database that the checks read: media, slots and
//! DSP management entries. Times are microseconds since the Unix epoch.
use vstd::prelude::*;
use crate::text::{str_to_i32, parse_i32_spec};
use super::model::{MediaType, OSType, Status};

verus! {

/// A medium.
pub struct Media {
    pub id: i32,
    pub name: String,
    pub user_id: i32,
    pub media_type: MediaType,
    pub os_type: OSType,
    pub source_name: String,
    pub source_url: String,
    pub created_at: i64,
    pub updated_at: i64,
}

/// An ad slot.
pub struct Slot {
    pub id: i32,
    pub name: String,
    pub media_id: i32,
    pub status: Status,
    pub config: String,
    pub created_at: i64,
    pub updated_at: i64,
    pub quota: i32,
    pub tpl_id: i32,
}

/// A slot's refresh settings.
pub struct SlotConfig {
    pub refresh_type: i32,
    pub round: i32,
}

/// A DSP management entry: which DSP slot serves a medium.
pub struct Mng {
    pub id: i32,
    pub dsp_id: i32,
    pub media_id: String,
    pub media_name: String,
    pub dsp_slot_id: String,
    pub dsp_slot_name: String,
    pub channel_id: String,
    pub quota: i32,
    pub slot_type: i32,
    pub package: String,
    pub os_type: OSType,
    pub comment: String,
    pub width: i32,
    pub height: i32,
    pub cache_time: i32,
}

impl Mng {
    /// The DSP slot id read as a number, if it is one.
    pub fn dsp_slot_number(&self) -> (r: Option<i32>)
        ensures
            r == parse_i32_spec(self.dsp_slot_id@),
    {
        str_to_i32(self.dsp_slot_id.as_str())
    }
}

} // verus!
