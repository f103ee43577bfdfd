//! Plans of the own DSP, their configurations and rules.
use vstd::prelude::*;
use crate::server::error::Error;

verus! {

/// A plan of the own DSP. `weekdays` and `hours` are JSON texts; times are
/// microseconds since the Unix epoch.
pub struct Plan {
    pub id: u64,
    pub created_at: i64,
    pub updated_at: i64,
    pub name: String,
    pub budget: u64,
    pub bid_type: BidType,
    pub bid_price: u32,
    pub weekdays: String,
    pub hours: String,
    pub begin_at: Option<i64>,
    pub end_at: Option<i64>,
}

impl Clone for Plan {
    fn clone(&self) -> (r: Self)
        ensures
            r == *self,
    {
        Plan {
            id: self.id,
            created_at: self.created_at,
            updated_at: self.updated_at,
            name: self.name.clone(),
            budget: self.budget,
            bid_type: self.bid_type,
            bid_price: self.bid_price,
            weekdays: self.weekdays.clone(),
            hours: self.hours.clone(),
            begin_at: self.begin_at,
            end_at: self.end_at,
        }
    }
}

/// How a plan is paid for.
#[derive(Debug, Clone, Copy, PartialEq, Eq, Structural)]
pub enum BidType {
    CPT,
    CPC,
    CPM,
}

/// A configuration of a plan. `idea_ids` holds the stored JSON value: no
/// list where it is no array, else each item as a `u64` where it is one.
pub struct PlanConfig {
    pub id: u64,
    pub created_at: i64,
    pub updated_at: i64,
    pub plan_id: u64,
    pub idea_ids: Option<Vec<Option<u64>>>,
}

/// The `u64` items of a configuration's stored array, in order.
pub open spec fn numbers_of(items: Seq<Option<u64>>) -> Seq<u64>
    decreases items.len(),
{
    if items.len() == 0 {
        Seq::empty()
    } else {
        let rest = numbers_of(items.drop_last());
        match items.last() {
            Some(n) => rest.push(n),
            None => rest,
        }
    }
}

impl PlanConfig {
    /// The idea ids: the `u64` items of the stored array, in order (none
    /// where the stored value is no array).
    pub fn idea_ids(&self) -> (r: Result<Vec<u64>, Error>)
        ensures
            r matches Ok(ids) && ids@ == (match self.idea_ids {
                Some(items) => numbers_of(items@),
                None => Seq::<u64>::empty(),
            }),
    {
        let mut ids: Vec<u64> = Vec::new();
        match &self.idea_ids {
            None => Ok(ids),
            Some(items) => {
                let mut i: usize = 0;
                while i < items.len()
                    invariant
                        i <= items@.len(),
                        ids@ == numbers_of(items@.take(i as int)),
                    decreases items@.len() - i,
                {
                    assert(items@.take(i + 1).drop_last() =~= items@.take(i as int));
                    if let Some(n) = items[i] {
                        ids.push(n);
                    }
                    i = i + 1;
                }
                assert(items@.take(items@.len() as int) =~= items@);
                Ok(ids)
            },
        }
    }
}

/// A rule of a configuration. `value` holds the stored JSON value: no list
/// where it is no array, else each item as a string where it is one.
pub struct PlanConfigRule {
    pub id: u64,
    pub created_at: i64,
    pub updated_at: i64,
    pub config_id: u64,
    pub key: String,
    pub value: Option<Vec<Option<String>>>,
}

impl PlanConfigRule {
    /// Whether one of the rule's items is the string `value`; the stored
    /// value must be an array.
    pub fn contains(&self, value: &str) -> (b: bool)
        requires
            self.value is Some,
        ensures
            b == exists|k: int| 0 <= k < self.value->0@.len() && (#[trigger] self.value->0@[k] matches Some(s) && s@ == value@),
    {
        let v = value.to_string();
        let items = self.value.as_ref().unwrap();
        let mut i: usize = 0;
        while i < items.len()
            invariant
                i <= items@.len(),
                v@ == value@,
                *items == self.value->0,
                forall|k: int| 0 <= k < i ==> !(#[trigger] items@[k] matches Some(s) && s@ == value@),
            decreases items@.len() - i,
        {
            match &items[i] {
                Some(s) => {
                    if *s == v {
                        return true;
                    }
                },
                None => {},
            }
            i = i + 1;
        }
        false
    }
}

} // verus!
