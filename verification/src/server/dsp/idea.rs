//! Ideas (creatives) of the own DSP.
use vstd::prelude::*;
use crate::server::enums::AdType;

verus! {

/// An idea and its ad type. Times are microseconds since the Unix epoch.
#[derive(Debug, Clone, Copy, PartialEq, Eq, Structural)]
pub struct Idea {
    pub id: u64,
    pub created_at: i64,
    pub updated_at: i64,
    pub ad_type: AdType,
}

} // verus!
