//! Strategies of the server: configurations, the trigger rules that pick a
//! configuration, and the targets and DSPs it distributes to. Times are
//! microseconds since the Unix epoch.
use vstd::prelude::*;
use super::enums::Status;
use super::error::{Error, is_server_error};
use super::json::{parse_string_list, parse_u64_list, json_string_list, json_u64_list};
use super::weight::Weight;
use crate::monitor::plan::views;

verus! {

/// A strategy for a slot of a medium.
pub struct Strategy {
    pub id: u64,
    pub created_at: i64,
    pub updated_at: i64,
    pub slot_id: u64,
    pub media_id: u64,
    pub name: String,
    pub status: Status,
}

/// One configuration of a strategy.
#[derive(Debug, Clone, Copy, PartialEq, Eq, Structural)]
pub struct StrategyConfig {
    pub id: u64,
    pub created_at: i64,
    pub updated_at: i64,
    pub strategy_id: u64,
}

/// A trigger rule: a key and a JSON array of the strings it accepts.
pub struct TriggerRule {
    pub id: u64,
    pub created_at: i64,
    pub updated_at: i64,
    pub config_id: u64,
    pub key: String,
    pub value: String,
}

/// Whether `value` is one of `values`.
pub fn contains_value(values: &Vec<String>, value: &str) -> (b: bool)
    ensures
        b == views(values@).contains(value@),
{
    let v = value.to_string();
    let mut i: usize = 0;
    while i < values.len()
        invariant
            i <= values@.len(),
            v@ == value@,
            forall|k: int| 0 <= k < i ==> #[trigger] values@[k]@ != value@,
        decreases values@.len() - i,
    {
        if values[i] == v {
            assert(views(values@)[i as int] == value@);
            return true;
        }
        i = i + 1;
    }
    assert(!views(values@).contains(value@)) by {
        if views(values@).contains(value@) {
            let k = choose|k: int| 0 <= k < views(values@).len() && views(values@)[k] == value@;
            assert(values@[k]@ == value@);
        }
    }
    false
}

impl TriggerRule {
    /// Whether the rule's JSON array holds `value`; a value that is no
    /// array of strings is the JSON error.
    pub fn contains(&self, value: &str) -> (r: Result<bool, Error>)
        ensures
            json_string_list(self.value@) matches Ok(l) ==> r == Ok::<bool, Error>(l.contains(value@)),
            json_string_list(self.value@) matches Err(m) ==> (r matches Err(e) && is_server_error(e, 500, 500, m)),
    {
        match parse_string_list(self.value.as_str()) {
            Ok(values) => Ok(contains_value(&values, value)),
            Err(m) => Err(Error::InternalServerError(500, m.as_str())),
        }
    }
}

/// A target of a configuration: its share and two tiers of DSP ids, each a
/// JSON array of numbers.
pub struct TriggerTarget {
    pub id: u64,
    pub created_at: i64,
    pub updated_at: i64,
    pub config_id: u64,
    pub percent: u8,
    pub group1: String,
    pub group2: String,
}

/// The ids that a group's JSON text lists; text that is no array of
/// numbers is the JSON error.
pub fn id_group(group: &str) -> (r: Result<Vec<u64>, Error>)
    ensures
        json_u64_list(group@) matches Ok(l) ==> (r matches Ok(v) && v@ == l),
        json_u64_list(group@) matches Err(m) ==> (r matches Err(e) && is_server_error(e, 500, 500, m)),
{
    match parse_u64_list(group) {
        Ok(ids) => Ok(ids),
        Err(m) => Err(Error::InternalServerError(500, m.as_str())),
    }
}

impl TriggerTarget {
    /// The ids of the first tier.
    pub fn group1(&self) -> (r: Result<Vec<u64>, Error>)
        ensures
            json_u64_list(self.group1@) matches Ok(l) ==> (r matches Ok(v) && v@ == l),
            json_u64_list(self.group1@) matches Err(m) ==> (r matches Err(e) && is_server_error(e, 500, 500, m)),
    {
        id_group(self.group1.as_str())
    }

    /// The ids of the second tier.
    pub fn group2(&self) -> (r: Result<Vec<u64>, Error>)
        ensures
            json_u64_list(self.group2@) matches Ok(l) ==> (r matches Ok(v) && v@ == l),
            json_u64_list(self.group2@) matches Err(m) ==> (r matches Err(e) && is_server_error(e, 500, 500, m)),
    {
        id_group(self.group2.as_str())
    }
}

impl Weight for TriggerTarget {
    open spec fn spec_weight(&self) -> u32 {
        self.percent as u32
    }

    fn weight(&self) -> (w: u32) {
        self.percent as u32
    }
}

/// A DSP bound to a strategy: its share, provider and slot.
pub struct BindDsp {
    pub id: u64,
    pub created_at: i64,
    pub updated_at: i64,
    pub percent: u8,
    pub dsp_provider: String,
    pub dsp_slot_id: u64,
}

impl Clone for BindDsp {
    fn clone(&self) -> (r: Self)
        ensures
            r == *self,
    {
        BindDsp {
            id: self.id,
            created_at: self.created_at,
            updated_at: self.updated_at,
            percent: self.percent,
            dsp_provider: self.dsp_provider.clone(),
            dsp_slot_id: self.dsp_slot_id,
        }
    }
}

impl Weight for BindDsp {
    open spec fn spec_weight(&self) -> u32 {
        self.percent as u32
    }

    fn weight(&self) -> (w: u32) {
        self.percent as u32
    }
}

} // verus!
