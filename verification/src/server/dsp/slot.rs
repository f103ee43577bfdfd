//! Slots of the own DSP and the ad types they accept.
use vstd::prelude::*;
use crate::server::enums::{AdType, ad_type_name};
use crate::monitor::plan::views;

verus! {

/// A slot of the own DSP. `accept_ad_type` holds the JSON text of each item
/// of the stored JSON array (no list where the stored value is no array).
/// Times are microseconds since the Unix epoch.
pub struct Slot {
    pub id: u64,
    pub created_at: i64,
    pub updated_at: i64,
    pub name: String,
    pub accept_ad_type: Option<Vec<String>>,
    pub min_price_cpt: u32,
    pub min_price_cpm: u32,
    pub min_price_cpc: u32,
    pub width: u32,
    pub height: u32,
}

/// Whether the slot accepts the ad type: one of its items' JSON text is the
/// type's name.
pub open spec fn accepts(slot: Slot, ad_type: AdType) -> bool {
    views(slot.accept_ad_type->0@).contains(ad_type_name(ad_type))
}

impl Slot {
    /// Whether the slot accepts the ad type (`accepts`); the stored value
    /// must be an array.
    pub fn support_ad_type(&self, ad_type: AdType) -> (b: bool)
        requires
            self.accept_ad_type is Some,
        ensures
            b == accepts(*self, ad_type),
    {
        let name = ad_type.to_string();
        let ad_types = self.accept_ad_type.as_ref().unwrap();
        let mut i: usize = 0;
        while i < ad_types.len()
            invariant
                i <= ad_types@.len(),
                name@ == ad_type_name(ad_type),
                *ad_types == self.accept_ad_type->0,
                forall|k: int| 0 <= k < i ==> #[trigger] ad_types@[k]@ != name@,
            decreases ad_types@.len() - i,
        {
            if ad_types[i] == name {
                assert(views(ad_types@)[i as int] == name@);
                return true;
            }
            i = i + 1;
        }
        assert(!views(ad_types@).contains(name@)) by {
            if views(ad_types@).contains(name@) {
                let k = choose|k: int| 0 <= k < views(ad_types@).len() && views(ad_types@)[k] == name@;
                assert(ad_types@[k]@ == name@);
            }
        }
        false
    }
}

} // verus!
