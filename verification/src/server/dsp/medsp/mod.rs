//! The own DSP: plans grouped by bid type, chosen by price, and the ideas a
//! slot accepts.
use vstd::prelude::*;
use crate::text::{u64_to_string, decimal, concat};
use crate::server::error::{Error, is_server_error};
use crate::server::ssp::Request;
use crate::server::enums::os_name;
use crate::server::weight::Weight;
use super::idea::Idea;
use super::slot::{Slot, accepts};

pub mod plan;

use self::plan::{BidType, Plan, PlanConfigRule};

verus! {

broadcast use vstd::string::group_string_axioms;

/// A plan with the idea ids of a configuration that matched.
pub struct PlanIdeaIDs {
    pub plan: Plan,
    pub idea_ids: Vec<u64>,
}

impl View for PlanIdeaIDs {
    type V = (Plan, Seq<u64>);

    open spec fn view(&self) -> (Plan, Seq<u64>) {
        (self.plan, self.idea_ids@)
    }
}

impl Clone for PlanIdeaIDs {
    fn clone(&self) -> (r: Self)
        ensures
            r@ == self@,
    {
        let mut ids: Vec<u64> = Vec::new();
        let mut i: usize = 0;
        while i < self.idea_ids.len()
            invariant
                i <= self.idea_ids@.len(),
                ids@ == self.idea_ids@.take(i as int),
            decreases self.idea_ids@.len() - i,
        {
            ids.push(self.idea_ids[i]);
            assert(ids@ =~= self.idea_ids@.take(i + 1));
            i = i + 1;
        }
        assert(ids@ =~= self.idea_ids@);
        PlanIdeaIDs { plan: self.plan.clone(), idea_ids: ids }
    }
}

impl Weight for PlanIdeaIDs {
    open spec fn spec_weight(&self) -> u32 {
        self.plan.bid_price
    }

    fn weight(&self) -> (w: u32) {
        self.plan.bid_price
    }
}

/// The views of a list of plans with ideas.
pub open spec fn pii_views(v: Seq<PlanIdeaIDs>) -> Seq<(Plan, Seq<u64>)> {
    v.map_values(|p: PlanIdeaIDs| p@)
}

/// `s` with `x` placed after every entry priced no lower; on a list sorted
/// by price from high to low, the stable place of `x`.
pub open spec fn insert_by_price(s: Seq<(Plan, Seq<u64>)>, x: (Plan, Seq<u64>)) -> Seq<(Plan, Seq<u64>)>
    decreases s.len(),
{
    if s.len() == 0 {
        seq![x]
    } else if s.last().0.bid_price >= x.0.bid_price {
        s.push(x)
    } else {
        insert_by_price(s.drop_last(), x).push(s.last())
    }
}

/// The entries of one bid type, sorted by price from high to low, entries
/// of the same price in their given order.
pub open spec fn group_of(s: Seq<(Plan, Seq<u64>)>, bid_type: BidType) -> Seq<(Plan, Seq<u64>)>
    decreases s.len(),
{
    if s.len() == 0 {
        Seq::empty()
    } else {
        let rest = group_of(s.drop_last(), bid_type);
        if s.last().0.bid_type == bid_type {
            insert_by_price(rest, s.last())
        } else {
            rest
        }
    }
}

proof fn lemma_insert_price_at(s: Seq<(Plan, Seq<u64>)>, x: (Plan, Seq<u64>), j: int)
    requires
        0 <= j <= s.len(),
        forall|k: int| j <= k < s.len() ==> s[k].0.bid_price < x.0.bid_price,
        j > 0 ==> s[j - 1].0.bid_price >= x.0.bid_price,
    ensures
        insert_by_price(s, x) == s.insert(j, x),
    decreases s.len(),
{
    if s.len() == 0 {
        assert(s.insert(j, x) =~= seq![x]);
    } else if j == s.len() {
        assert(s.insert(j, x) =~= s.push(x));
    } else {
        lemma_insert_price_at(s.drop_last(), x, j);
        assert(s.drop_last().insert(j, x).push(s.last()) =~= s.insert(j, x));
    }
}

/// Whether the entries are in order of price, from high to low.
pub open spec fn prices_descending(s: Seq<(Plan, Seq<u64>)>) -> bool {
    forall|i: int, j: int| 0 <= i < j < s.len() ==> s[i].0.bid_price >= s[j].0.bid_price
}

proof fn lemma_insert_by_price(s: Seq<(Plan, Seq<u64>)>, x: (Plan, Seq<u64>))
    requires
        prices_descending(s),
    ensures
        prices_descending(insert_by_price(s, x)),
        insert_by_price(s, x).to_multiset() =~= s.to_multiset().insert(x),
        forall|i: int| 0 <= i < insert_by_price(s, x).len() ==> #[trigger] insert_by_price(s, x)[i] == x
            || s.contains(insert_by_price(s, x)[i]),
        insert_by_price(s, x).len() == s.len() + 1,
    decreases s.len(),
{
    broadcast use vstd::seq_lib::group_to_multiset_ensures;
    if s.len() == 0 {
        assert(seq![x] =~= Seq::<(Plan, Seq<u64>)>::empty().push(x));
    } else if s.last().0.bid_price >= x.0.bid_price {
        assert forall|i: int| 0 <= i < s.len() + 1 implies #[trigger] s.push(x)[i] == x || s.contains(s.push(x)[i]) by {
            if i < s.len() {
                assert(s.push(x)[i] == s[i]);
            }
        }
    } else {
        let d = s.drop_last();
        lemma_insert_by_price(d, x);
        let r = insert_by_price(d, x);
        assert(s =~= d.push(s.last()));
        assert forall|i: int, j: int| 0 <= i < j < r.push(s.last()).len() implies r.push(s.last())[i].0.bid_price
            >= r.push(s.last())[j].0.bid_price by {
            if j == r.len() {
                let e = r[i];
                if e != x {
                    let k = choose|k: int| 0 <= k < d.len() && d[k] == e;
                    assert(s[k] == e);
                }
            }
        }
        assert forall|i: int| 0 <= i < r.push(s.last()).len() implies #[trigger] r.push(s.last())[i] == x
            || s.contains(r.push(s.last())[i]) by {
            if i < r.len() {
                let e = r[i];
                if e != x {
                    let k = choose|k: int| 0 <= k < d.len() && d[k] == e;
                    assert(s[k] == e);
                }
            } else {
                assert(s[s.len() - 1] == s.last());
            }
        }
    }
}

/// A group of one bid type holds exactly the entries of that bid type, as
/// often as they occur, in order of price from high to low.
pub proof fn lemma_group_of(s: Seq<(Plan, Seq<u64>)>, bid_type: BidType)
    ensures
        prices_descending(group_of(s, bid_type)),
        group_of(s, bid_type).to_multiset()
            =~= s.filter(|e: (Plan, Seq<u64>)| e.0.bid_type == bid_type).to_multiset(),
    decreases s.len(),
{
    broadcast use vstd::seq_lib::group_to_multiset_ensures;
    reveal_with_fuel(Seq::<_>::filter, 1);
    if s.len() > 0 {
        lemma_group_of(s.drop_last(), bid_type);
        if s.last().0.bid_type == bid_type {
            lemma_insert_by_price(group_of(s.drop_last(), bid_type), s.last());
        }
    }
}

/// Inserts `x` at its stable place in a list sorted by price, high to low.
fn insert_sorted(out: &mut Vec<PlanIdeaIDs>, x: PlanIdeaIDs)
    ensures
        pii_views(final(out)@) == insert_by_price(pii_views(old(out)@), x@),
{
    let mut j: usize = out.len();
    while j > 0 && out[j - 1].plan.bid_price < x.plan.bid_price
        invariant
            j <= out@.len(),
            out@ == old(out)@,
            forall|k: int| j <= k < out@.len() ==> out@[k].plan.bid_price < x.plan.bid_price,
        decreases j,
    {
        j = j - 1;
    }
    proof {
        lemma_insert_price_at(pii_views(out@), x@, j as int);
    }
    let ghost xv = x@;
    out.insert(j, x);
    assert(pii_views(out@) =~= pii_views(old(out)@).insert(j as int, xv));
}

/// The entries grouped by bid type (CPT, CPM, CPC), each group sorted by
/// price from high to low, entries of the same price in their given order.
pub fn group_by_bid_type(vec: &Vec<PlanIdeaIDs>) -> (r: (Vec<PlanIdeaIDs>, Vec<PlanIdeaIDs>, Vec<PlanIdeaIDs>))
    ensures
        pii_views(r.0@) == group_of(pii_views(vec@), BidType::CPT),
        pii_views(r.1@) == group_of(pii_views(vec@), BidType::CPM),
        pii_views(r.2@) == group_of(pii_views(vec@), BidType::CPC),
{
    let mut cpt: Vec<PlanIdeaIDs> = Vec::new();
    let mut cpm: Vec<PlanIdeaIDs> = Vec::new();
    let mut cpc: Vec<PlanIdeaIDs> = Vec::new();
    let ghost vv = pii_views(vec@);
    let mut i: usize = 0;
    while i < vec.len()
        invariant
            i <= vec@.len(),
            vv == pii_views(vec@),
            pii_views(cpt@) == group_of(vv.take(i as int), BidType::CPT),
            pii_views(cpm@) == group_of(vv.take(i as int), BidType::CPM),
            pii_views(cpc@) == group_of(vv.take(i as int), BidType::CPC),
        decreases vec@.len() - i,
    {
        assert(vv.take(i + 1).drop_last() =~= vv.take(i as int));
        assert(vv.take(i + 1).last() == vec@[i as int]@);
        let pii = vec[i].clone();
        match pii.plan.bid_type {
            BidType::CPT => insert_sorted(&mut cpt, pii),
            BidType::CPM => insert_sorted(&mut cpm, pii),
            BidType::CPC => insert_sorted(&mut cpc, pii),
        }
        i = i + 1;
    }
    assert(vv.take(vec@.len() as int) =~= vv);
    (cpt, cpm, cpc)
}

/// The ideas that the slot accepts, in order.
pub open spec fn accepted_ideas(ideas: Seq<Idea>, slot: Slot) -> Seq<Idea> {
    ideas.filter(|i: Idea| accepts(slot, i.ad_type))
}

/// The ideas that the slot accepts, in order.
pub fn supported_ideas(ideas: &Vec<Idea>, slot: &Slot) -> (r: Vec<Idea>)
    requires
        slot.accept_ad_type is Some,
    ensures
        r@ == accepted_ideas(ideas@, *slot),
{
    let mut out: Vec<Idea> = Vec::new();
    let mut i: usize = 0;
    while i < ideas.len()
        invariant
            i <= ideas@.len(),
            slot.accept_ad_type is Some,
            out@ == accepted_ideas(ideas@.take(i as int), *slot),
        decreases ideas@.len() - i,
    {
        proof {
            reveal_with_fuel(Seq::<_>::filter, 1);
        }
        assert(ideas@.take(i + 1).drop_last() =~= ideas@.take(i as int));
        if slot.support_ad_type(ideas[i].ad_type) {
            out.push(ideas[i]);
        }
        i = i + 1;
    }
    assert(ideas@.take(ideas@.len() as int) =~= ideas@);
    out
}

/// The first idea that the slot accepts; there must be one.
pub fn first_supported_idea(ideas: &Vec<Idea>, slot: &Slot) -> (r: Idea)
    requires
        slot.accept_ad_type is Some,
        accepted_ideas(ideas@, *slot).len() > 0,
    ensures
        r == accepted_ideas(ideas@, *slot)[0],
{
    let supported = supported_ideas(ideas, slot);
    supported[0]
}

/// The error for a DSP slot whose own slot does not exist: 422
/// `invalid slot_id: <id>`.
pub fn slot_missing(slot_id: u64) -> (e: Error)
    ensures
        is_server_error(e, 422, 422, "invalid slot_id: "@ + decimal(slot_id as nat)),
{
    let m = concat("invalid slot_id: ", u64_to_string(slot_id).as_str());
    Error::UnprocessableEntity(422, m.as_str())
}

/// What the own DSP's rules are matched against: the slot id and the OS.
pub struct MatchRule(pub Vec<(String, String)>);

impl MatchRule {
    /// The slot id and the OS name of the request.
    pub fn new(req: &Request) -> (m: MatchRule)
        ensures
            m.0@.map_values(|e: (String, String)| (e.0@, e.1@)) == seq![
                ("slot_id"@, decimal(req.slot.id as nat)),
                ("os"@, os_name(req.device.os_type)),
            ],
    {
        let mut map: Vec<(String, String)> = Vec::new();
        map.push(("slot_id".to_string(), u64_to_string(req.slot.id)));
        map.push(("os".to_string(), req.device.os_type.to_string()));
        let m = MatchRule(map);
        assert(m.0@.map_values(|e: (String, String)| (e.0@, e.1@)) =~= seq![
            ("slot_id"@, decimal(req.slot.id as nat)),
            ("os"@, os_name(req.device.os_type)),
        ]);
        m
    }

    /// Whether a plan rule matches: no rule matches yet.
    pub fn matches(&self, rule: &PlanConfigRule) -> (b: bool)
        ensures
            !b,
    {
        false
    }
}

} // verus!
