//! The view joining a DSP slot with the slot and medium it serves.
use vstd::prelude::*;
use super::enums::OS;

verus! {

/// A DSP slot with what it serves. Times are microseconds since the Unix epoch.
pub struct DspSlot {
    pub id: u64,
    pub created_at: i64,
    pub updated_at: i64,
    pub media_id: Option<u64>,
    pub slot_id: Option<u64>,
    pub slot_type: Option<String>,
    pub os: Option<OS>,
    pub package: Option<String>,
    pub width: u32,
    pub height: u32,
}

} // verus!
