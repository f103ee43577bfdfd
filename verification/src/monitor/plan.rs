//! DSP plans: their delivery windows, the rules that place them, and the
//! rule strings by which plans for the same placement are grouped.
use vstd::prelude::*;
use crate::text::{split_strings, split_spec, contains_str, has_substring, concat, clone_strings};
use super::model::{Status, BidType};

verus! {

broadcast use vstd::string::group_string_axioms;

/// The current time in microseconds since the Unix epoch
/// (`chrono::Local::now().timestamp_micros()`).
#[verifier::external_body]
pub(crate) fn now_micros() -> i64 {
    chrono::Local::now().timestamp_micros()
}

/// Microseconds in a second.
pub const MICROS_PER_SECOND: i64 = 1_000_000;

/// The largest number of seconds that a `chrono::Duration` holds.
pub const MAX_DURATION_SECONDS: i64 = 9_223_372_036_854_775;

/// A plan as stored: times are microseconds since the Unix epoch.
pub struct Plan {
    pub id: i32,
    pub status: Status,
    pub created_at: i64,
    pub updated_at: i64,
    pub name: String,
    pub user_id: i32,
    pub budget: i32,
    pub bid_type: BidType,
    pub bid_price: i32,
    pub weekday: String,
    pub hour: String,
    pub adconfig: AdConfigVec,
    pub begin_time: Option<i64>,
    pub end_time: Option<i64>,
    pub closed_time: Option<i64>,
    pub closed_reason: Option<String>,
}

/// Whether two comma-separated lists share an item.
pub open spec fn lists_share(a: Seq<char>, b: Seq<char>) -> bool {
    exists|i: int, j: int|
        0 <= i < split_spec(a, ',').len() && 0 <= j < split_spec(b, ',').len()
            && #[trigger] split_spec(a, ',')[i] == #[trigger] split_spec(b, ',')[j]
}

/// The later of the two begins, a missing one counting as `now`.
pub open spec fn overlap_begin(a: Option<i64>, b: Option<i64>, now: i64) -> int {
    let x = a.unwrap_or(now);
    let y = b.unwrap_or(now);
    if x < y { y as int } else { x as int }
}

/// The earlier of the two ends, a missing one counting as `now`.
pub open spec fn overlap_end(a: Option<i64>, b: Option<i64>, now: i64) -> int {
    let x = a.unwrap_or(now);
    let y = b.unwrap_or(now);
    if x > y { y as int } else { x as int }
}

/// Whether the common part of two delivery windows lasts longer than
/// `allow_seconds`.
pub open spec fn windows_overlap(p: Plan, q: Plan, allow_seconds: i64, now: i64) -> bool {
    overlap_end(p.end_time, q.end_time, now) - overlap_begin(p.begin_time, q.begin_time, now)
        > allow_seconds * 1_000_000
}

/// Overlap does not depend on the order of the plans: two plans overlap in
/// delivery window, weekday and hour exactly when the other order does.
pub proof fn lemma_overlap_symmetric(p: Plan, q: Plan, allow_seconds: i64, now: i64)
    ensures
        windows_overlap(p, q, allow_seconds, now) == windows_overlap(q, p, allow_seconds, now),
        lists_share(p.weekday@, q.weekday@) == lists_share(q.weekday@, p.weekday@),
        lists_share(p.hour@, q.hour@) == lists_share(q.hour@, p.hour@),
{
    assert(lists_share(p.weekday@, q.weekday@) ==> lists_share(q.weekday@, p.weekday@)) by {
        if lists_share(p.weekday@, q.weekday@) {
            let (i, j) = choose|i: int, j: int|
                0 <= i < split_spec(p.weekday@, ',').len() && 0 <= j < split_spec(q.weekday@, ',').len()
                    && split_spec(p.weekday@, ',')[i] == split_spec(q.weekday@, ',')[j];
            assert(split_spec(q.weekday@, ',')[j] == split_spec(p.weekday@, ',')[i]);
        }
    }
    assert(lists_share(q.weekday@, p.weekday@) ==> lists_share(p.weekday@, q.weekday@)) by {
        if lists_share(q.weekday@, p.weekday@) {
            let (i, j) = choose|i: int, j: int|
                0 <= i < split_spec(q.weekday@, ',').len() && 0 <= j < split_spec(p.weekday@, ',').len()
                    && split_spec(q.weekday@, ',')[i] == split_spec(p.weekday@, ',')[j];
            assert(split_spec(p.weekday@, ',')[j] == split_spec(q.weekday@, ',')[i]);
        }
    }
    assert(lists_share(p.hour@, q.hour@) ==> lists_share(q.hour@, p.hour@)) by {
        if lists_share(p.hour@, q.hour@) {
            let (i, j) = choose|i: int, j: int|
                0 <= i < split_spec(p.hour@, ',').len() && 0 <= j < split_spec(q.hour@, ',').len()
                    && split_spec(p.hour@, ',')[i] == split_spec(q.hour@, ',')[j];
            assert(split_spec(q.hour@, ',')[j] == split_spec(p.hour@, ',')[i]);
        }
    }
    assert(lists_share(q.hour@, p.hour@) ==> lists_share(p.hour@, q.hour@)) by {
        if lists_share(q.hour@, p.hour@) {
            let (i, j) = choose|i: int, j: int|
                0 <= i < split_spec(q.hour@, ',').len() && 0 <= j < split_spec(p.hour@, ',').len()
                    && split_spec(q.hour@, ',')[i] == split_spec(p.hour@, ',')[j];
            assert(split_spec(p.hour@, ',')[j] == split_spec(q.hour@, ',')[i]);
        }
    }
}

impl Plan {
    /// Whether the two plans overlap in their delivery windows (by more than
    /// `allow_overlap_max` seconds, counting a missing begin or end as now),
    /// in some weekday and in some hour; true of the clock reading taken.
    pub fn time_overlap(&self, other: &Plan, allow_overlap_max: i64) -> (b: bool)
        requires
            -MAX_DURATION_SECONDS <= allow_overlap_max <= MAX_DURATION_SECONDS,
        ensures
            exists|now: i64| b == (windows_overlap(*self, *other, allow_overlap_max, now)
                && lists_share(self.weekday@, other.weekday@)
                && lists_share(self.hour@, other.hour@)),
    {
        let now = now_micros();
        let b = self.time_overlap_at(other, allow_overlap_max, now);
        assert(b == (windows_overlap(*self, *other, allow_overlap_max, now)
            && lists_share(self.weekday@, other.weekday@)
            && lists_share(self.hour@, other.hour@)));
        b
    }

    /// `time_overlap` with the current time given.
    pub fn time_overlap_at(&self, other: &Plan, allow_overlap_max: i64, now: i64) -> (b: bool)
        requires
            -MAX_DURATION_SECONDS <= allow_overlap_max <= MAX_DURATION_SECONDS,
        ensures
            b == (windows_overlap(*self, *other, allow_overlap_max, now)
                && lists_share(self.weekday@, other.weekday@)
                && lists_share(self.hour@, other.hour@)),
    {
        let beginend_time_overlap = self.beginend_time_overlap_at(other, allow_overlap_max, now);
        let weekday_overlap = self.weekday_overlap(other);
        let hour_overlap = self.hour_overlap(other);
        beginend_time_overlap && weekday_overlap && hour_overlap
    }

    /// Whether the common part of the two delivery windows lasts longer than
    /// `allow_overlap_max` seconds, a missing begin or end counting as now.
    pub fn beginend_time_overlap(&self, other: &Plan, allow_overlap_max: i64) -> (b: bool)
        requires
            -MAX_DURATION_SECONDS <= allow_overlap_max <= MAX_DURATION_SECONDS,
        ensures
            exists|now: i64| b == windows_overlap(*self, *other, allow_overlap_max, now),
    {
        let now = now_micros();
        self.beginend_time_overlap_at(other, allow_overlap_max, now)
    }

    /// `beginend_time_overlap` with the current time given.
    pub fn beginend_time_overlap_at(&self, other: &Plan, allow_overlap_max: i64, now: i64) -> (b: bool)
        requires
            -MAX_DURATION_SECONDS <= allow_overlap_max <= MAX_DURATION_SECONDS,
        ensures
            b == windows_overlap(*self, *other, allow_overlap_max, now),
    {
        let mut begin_time = match self.begin_time { Some(t) => t, None => now };
        let other_begin_time = match other.begin_time { Some(t) => t, None => now };
        if begin_time < other_begin_time {
            begin_time = other_begin_time;
        }
        let mut end_time = match self.end_time { Some(t) => t, None => now };
        let other_end_time = match other.end_time { Some(t) => t, None => now };
        if end_time > other_end_time {
            end_time = other_end_time;
        }
        let span: i128 = (end_time as i128) - (begin_time as i128);
        let allowed: i128 = (allow_overlap_max as i128) * (MICROS_PER_SECOND as i128);
        span > allowed
    }

    /// Whether the two plans share a weekday in their comma-separated lists.
    pub fn weekday_overlap(&self, other: &Plan) -> (b: bool)
        ensures
            b == lists_share(self.weekday@, other.weekday@),
    {
        share_item(&self.weekday, &other.weekday)
    }

    /// Whether the two plans share an hour in their comma-separated lists.
    pub fn hour_overlap(&self, other: &Plan) -> (b: bool)
        ensures
            b == lists_share(self.hour@, other.hour@),
    {
        share_item(&self.hour, &other.hour)
    }
}

/// Decides `lists_share`.
fn share_item(a: &String, b: &String) -> (r: bool)
    ensures
        r == lists_share(a@, b@),
{
    let xs = split_strings(a.as_str(), ',');
    let ys = split_strings(b.as_str(), ',');
    let ghost sa = split_spec(a@, ',');
    let ghost sb = split_spec(b@, ',');
    assert(xs@.len() == sa.len());
    assert(ys@.len() == sb.len());
    let mut i: usize = 0;
    while i < xs.len()
        invariant
            xs@.map_values(|p: String| p@) == sa,
            ys@.map_values(|p: String| p@) == sb,
            sa == split_spec(a@, ','),
            sb == split_spec(b@, ','),
            i <= xs@.len(),
            forall|k: int, l: int| 0 <= k < i && 0 <= l < sb.len() ==> sa[k] != sb[l],
        decreases xs@.len() - i,
    {
        let mut j: usize = 0;
        while j < ys.len()
            invariant
                xs@.map_values(|p: String| p@) == sa,
                ys@.map_values(|p: String| p@) == sb,
                sa == split_spec(a@, ','),
                sb == split_spec(b@, ','),
                i < xs@.len(),
                j <= ys@.len(),
                forall|k: int, l: int| 0 <= k < i && 0 <= l < sb.len() ==> sa[k] != sb[l],
                forall|l: int| 0 <= l < j ==> sa[i as int] != sb[l],
            decreases ys@.len() - j,
        {
            assert(sa[i as int] == xs@[i as int]@);
            assert(sb[j as int] == ys@[j as int]@);
            if xs[i] == ys[j] {
                assert(sa[i as int] == sb[j as int]);
                return true;
            }
            j = j + 1;
        }
        i = i + 1;
    }
    false
}

/// A plan's ad configurations.
pub struct AdConfigVec(pub Vec<AdConfig>);

/// The rule key that names a slot.
pub const RULE_KEY_SLOT_ID: &'static str = "slotid";

/// The rule key that carries tags.
pub const RULE_KEY_TAG: &'static str = "tag";

/// One ad configuration: its ideas and the rules that place it.
pub struct AdConfig {
    pub ideas: Vec<i32>,
    pub rules: Vec<AdConfigRule>,
}

/// A rule: a key and the values it accepts, each held as its JSON text
/// (a string value with its quotes, a number as written).
pub struct AdConfigRule {
    pub key: String,
    pub values: Vec<String>,
}


/// The view of a rule: its key and its values' texts.
pub type RuleView = (Seq<char>, Seq<Seq<char>>);

/// The view of a configuration: its ideas and its rules.
pub type ConfigView = (Seq<i32>, Seq<RuleView>);

impl View for AdConfigRule {
    type V = RuleView;

    open spec fn view(&self) -> RuleView {
        (self.key@, views(self.values@))
    }
}

impl View for AdConfig {
    type V = ConfigView;

    open spec fn view(&self) -> ConfigView {
        (self.ideas@, self.rules@.map_values(|r: AdConfigRule| r@))
    }
}

impl View for AdConfigVec {
    type V = Seq<ConfigView>;

    open spec fn view(&self) -> Seq<ConfigView> {
        self.0@.map_values(|c: AdConfig| c@)
    }
}

/// The strings `key:value` of one rule, in the order of its values.
pub open spec fn rule_strings(rule: RuleView) -> Seq<Seq<char>> {
    rule.1.map_values(|v: Seq<char>| rule.0 + ":"@ + v)
}

/// Every `old-new` joining, for each `new` in order, each `old` in order.
pub open spec fn combine(old: Seq<Seq<char>>, new: Seq<Seq<char>>) -> Seq<Seq<char>>
    decreases new.len(),
{
    if new.len() == 0 {
        Seq::empty()
    } else {
        combine(old, new.drop_last()) + old.map_values(|o: Seq<char>| o + "-"@ + new.last())
    }
}

/// The rule strings of one configuration: the first rule that yields any
/// strings gives them, and each later rule is joined onto all so far.
pub open spec fn config_rules(rules: Seq<RuleView>) -> Seq<Seq<char>>
    decreases rules.len(),
{
    if rules.len() == 0 {
        Seq::empty()
    } else {
        let acc = config_rules(rules.drop_last());
        let tmp = rule_strings(rules.last());
        if acc.len() == 0 {
            tmp
        } else {
            combine(acc, tmp)
        }
    }
}

/// The rule strings of all configurations, one configuration after another.
pub open spec fn configs_rules(configs: Seq<ConfigView>) -> Seq<Seq<char>>
    decreases configs.len(),
{
    if configs.len() == 0 {
        Seq::empty()
    } else {
        configs_rules(configs.drop_last()) + config_rules(configs.last().1)
    }
}

/// The views of a list of strings.
pub open spec fn views(v: Seq<String>) -> Seq<Seq<char>> {
    v.map_values(|s: String| s@)
}

/// The views of a list of rules.
pub open spec fn rule_views(v: Seq<AdConfigRule>) -> Seq<RuleView> {
    v.map_values(|r: AdConfigRule| r@)
}

/// Whether some rule string names a slot.
pub open spec fn rules_have_slot(rules: Seq<Seq<char>>) -> bool {
    exists|i: int| 0 <= i < rules.len() && has_substring(#[trigger] rules[i], "slotid"@)
}

/// Whether a rule carries tags.
pub open spec fn is_tag_rule(r: RuleView) -> bool {
    r.0 == "tag"@
}

impl AdConfigVec {
    /// The rule strings of all configurations (`configs_rules`).
    pub fn gen_rules(&self) -> (rules: Vec<String>)
        ensures
            views(rules@) == configs_rules(self@),
    {
        let mut rules: Vec<String> = Vec::new();
        let mut i: usize = 0;
        while i < self.0.len()
            invariant
                i <= self.0@.len(),
                views(rules@) == configs_rules(self@.take(i as int)),
            decreases self.0@.len() - i,
        {
            let mut more = self.0[i].gen_rules();
            let ghost before = rules@;
            let ghost added = more@;
            rules.append(&mut more);
            assert(self@.take(i + 1).drop_last() =~= self@.take(i as int));
            assert(self@.take(i + 1).last() == self.0@[i as int]@);
            assert(views(rules@) =~= views(before) + views(added));
            i = i + 1;
        }
        assert(self@.take(self.0@.len() as int) =~= self@);
        rules
    }

    /// Whether some rule string names a slot (contains `slotid`).
    pub fn has_slot(rules: &Vec<String>) -> (b: bool)
        ensures
            b == rules_have_slot(views(rules@)),
    {
        let mut i: usize = 0;
        while i < rules.len()
            invariant
                i <= rules@.len(),
                forall|k: int| 0 <= k < i ==> !has_substring(#[trigger] views(rules@)[k], "slotid"@),
            decreases rules@.len() - i,
        {
            proof {
                reveal_strlit("slotid");
            }
            if contains_str(rules[i].as_str(), RULE_KEY_SLOT_ID) {
                assert(has_substring(views(rules@)[i as int], "slotid"@));
                return true;
            }
            i = i + 1;
        }
        false
    }
}

impl AdConfig {
    /// The rule strings of this configuration (`config_rules`).
    pub fn gen_rules(&self) -> (rules: Vec<String>)
        ensures
            views(rules@) == config_rules(self@.1),
    {
        let mut rules: Vec<String> = Vec::new();
        let mut i: usize = 0;
        while i < self.rules.len()
            invariant
                i <= self.rules@.len(),
                views(rules@) == config_rules(self@.1.take(i as int)),
            decreases self.rules@.len() - i,
        {
            let mut tmp = self.rules[i].gen_rules();
            assert(self@.1.take(i + 1).drop_last() =~= self@.1.take(i as int));
            assert(self@.1.take(i + 1).last() == self.rules@[i as int]@);
            if rules.len() == 0 {
                let ghost added = tmp@;
                rules.append(&mut tmp);
                assert(views(rules@) =~= views(added));
            } else {
                rules = Self::gen_rules_new(&rules, &tmp);
            }
            i = i + 1;
        }
        assert(self@.1.take(self.rules@.len() as int) =~= self@.1);
        rules
    }

    /// Every `old-new` joining of the two lists (`combine`).
    pub fn gen_rules_new(rules: &Vec<String>, rules_new: &Vec<String>) -> (out: Vec<String>)
        ensures
            views(out@) == combine(views(rules@), views(rules_new@)),
    {
        let mut out: Vec<String> = Vec::new();
        let mut j: usize = 0;
        while j < rules_new.len()
            invariant
                j <= rules_new@.len(),
                views(out@) == combine(views(rules@), views(rules_new@).take(j as int)),
            decreases rules_new@.len() - j,
        {
            let ghost before = views(out@);
            let ghost n = rules_new@[j as int]@;
            let mut i: usize = 0;
            while i < rules.len()
                invariant
                    j < rules_new@.len(),
                    n == rules_new@[j as int]@,
                    i <= rules@.len(),
                    views(out@) == before + views(rules@).take(i as int).map_values(
                        |o: Seq<char>| o + "-"@ + n,
                    ),
                decreases rules@.len() - i,
            {
                let joined = concat(rules[i].as_str(), "-");
                let joined = concat(joined.as_str(), rules_new[j].as_str());
                let ghost prev = out@;
                out.push(joined);
                proof {
                    reveal_strlit("-");
                }
                assert(out@[out@.len() - 1]@ == rules@[i as int]@ + "-"@ + n);
                assert(views(rules@).take(i + 1).map_values(|o: Seq<char>| o + "-"@ + n)
                    =~= views(rules@).take(i as int).map_values(|o: Seq<char>| o + "-"@ + n)
                        .push(rules@[i as int]@ + "-"@ + n));
                assert(views(out@) =~= views(prev).push(rules@[i as int]@ + "-"@ + n));
                i = i + 1;
            }
            assert(views(rules@).take(rules@.len() as int) =~= views(rules@));
            assert(views(rules_new@).take(j + 1).drop_last() =~= views(rules_new@).take(j as int));
            assert(views(rules_new@).take(j + 1).last() == n);
            j = j + 1;
        }
        assert(views(rules_new@).take(rules_new@.len() as int) =~= views(rules_new@));
        out
    }

    /// The rules whose key is `tag`, in order.
    pub fn tag_rules(&self) -> (tags: Vec<AdConfigRule>)
        ensures
            rule_views(tags@) == self@.1.filter(|r: RuleView| is_tag_rule(r)),
    {
        let mut tags: Vec<AdConfigRule> = Vec::new();
        let mut i: usize = 0;
        while i < self.rules.len()
            invariant
                i <= self.rules@.len(),
                rule_views(tags@) == self@.1.take(i as int).filter(|r: RuleView| is_tag_rule(r)),
            decreases self.rules@.len() - i,
        {
            proof {
                reveal_strlit("tag");
                reveal_with_fuel(Seq::<_>::filter, 1);
            }
            let is_tag = self.rules[i].key_is(RULE_KEY_TAG);
            assert(self@.1.take(i + 1).drop_last() =~= self@.1.take(i as int));
            assert(self@.1.take(i + 1).last() == self.rules@[i as int]@);
            let ghost prev = tags@;
            if is_tag {
                tags.push(self.rules[i].clone());
                assert(rule_views(tags@) =~= rule_views(prev).push(self.rules@[i as int]@));
            }
            i = i + 1;
        }
        assert(self@.1.take(self.rules@.len() as int) =~= self@.1);
        tags
    }
}

impl Clone for AdConfigRule {
    fn clone(&self) -> (r: Self)
        ensures
            r@ == self@,
    {
        AdConfigRule { key: self.key.clone(), values: clone_strings(&self.values) }
    }
}

impl AdConfigRule {
    /// Whether the rule's key is `key`.
    pub fn key_is(&self, key: &str) -> (b: bool)
        ensures
            b == (self.key@ == key@),
    {
        let k = key.to_string();
        self.key == k
    }

    /// The strings `key:value` for the rule's values, in order.
    pub fn gen_rules(&self) -> (rules: Vec<String>)
        ensures
            views(rules@) == rule_strings(self@),
    {
        let mut rules: Vec<String> = Vec::new();
        let mut i: usize = 0;
        while i < self.values.len()
            invariant
                i <= self.values@.len(),
                views(rules@) == rule_strings(self@).take(i as int),
            decreases self.values@.len() - i,
        {
            let head = concat(self.key.as_str(), ":");
            let one = concat(head.as_str(), self.values[i].as_str());
            let ghost prev = rules@;
            rules.push(one);
            proof {
                reveal_strlit(":");
            }
            assert(rule_strings(self@)[i as int] == self.key@ + ":"@ + self.values@[i as int]@);
            assert(views(rules@) =~= views(prev).push(self.key@ + ":"@ + self.values@[i as int]@));
            assert(views(rules@) =~= rule_strings(self@).take(i + 1));
            i = i + 1;
        }
        assert(rule_strings(self@).take(self.values@.len() as int) =~= rule_strings(self@));
        rules
    }

    /// Whether the rule admits `value` under `key`: a tag rule admits
    /// everything, another rule only its own key with one of its values.
    pub fn contains(&self, key: &str, value: &str) -> (b: bool)
        ensures
            b == (self.key@ == "tag"@ || (self.key@ == key@ && self@.1.contains(value@))),
    {
        proof {
            reveal_strlit("tag");
        }
        if self.key_is(RULE_KEY_TAG) {
            return true;
        }
        if !self.key_is(key) {
            return false;
        }
        let v = value.to_string();
        let mut i: usize = 0;
        while i < self.values.len()
            invariant
                i <= self.values@.len(),
                v@ == value@,
                self.key@ == key@,
                forall|k: int| 0 <= k < i ==> #[trigger] self.values@[k]@ != value@,
            decreases self.values@.len() - i,
        {
            if self.values[i] == v {
                assert(self@.1.len() == self.values@.len());
                assert(self@.1[i as int] == value@);
                assert(self@.1.contains(value@));
                return true;
            }
            i = i + 1;
        }
        assert(!self@.1.contains(value@)) by {
            if self@.1.contains(value@) {
                let k = choose|k: int| 0 <= k < self@.1.len() && self@.1[k] == value@;
                assert(self.values@[k]@ == value@);
            }
        }
        false
    }

    /// The values of a tag rule; nothing for another rule.
    pub fn tags(&self) -> (tags: Vec<String>)
        ensures
            tags@ == (if self.key@ == "tag"@ { self.values@ } else { Seq::<String>::empty() }),
    {
        proof {
            reveal_strlit("tag");
        }
        if !self.key_is(RULE_KEY_TAG) {
            return Vec::new();
        }
        clone_strings(&self.values)
    }
}


/// Whether `a` is a copy of `b`: every field the same, the configurations
/// the same by view.
pub open spec fn same_plan(a: Plan, b: Plan) -> bool {
    &&& a.id == b.id
    &&& a.status == b.status
    &&& a.created_at == b.created_at
    &&& a.updated_at == b.updated_at
    &&& a.name == b.name
    &&& a.user_id == b.user_id
    &&& a.budget == b.budget
    &&& a.bid_type == b.bid_type
    &&& a.bid_price == b.bid_price
    &&& a.weekday == b.weekday
    &&& a.hour == b.hour
    &&& a.adconfig@ == b.adconfig@
    &&& a.begin_time == b.begin_time
    &&& a.end_time == b.end_time
    &&& a.closed_time == b.closed_time
    &&& a.closed_reason == b.closed_reason
}

impl Clone for AdConfig {
    fn clone(&self) -> (r: Self)
        ensures
            r@ == self@,
    {
        let mut ideas: Vec<i32> = Vec::new();
        let mut i: usize = 0;
        while i < self.ideas.len()
            invariant
                i <= self.ideas@.len(),
                ideas@ == self.ideas@.take(i as int),
            decreases self.ideas@.len() - i,
        {
            ideas.push(self.ideas[i]);
            assert(ideas@ =~= self.ideas@.take(i + 1));
            i = i + 1;
        }
        assert(ideas@ =~= self.ideas@);
        let mut rules: Vec<AdConfigRule> = Vec::new();
        let mut j: usize = 0;
        while j < self.rules.len()
            invariant
                j <= self.rules@.len(),
                rule_views(rules@) == rule_views(self.rules@.take(j as int)),
            decreases self.rules@.len() - j,
        {
            let c = self.rules[j].clone();
            assert(c@ == self.rules@[j as int]@);
            let ghost prev = rules@;
            rules.push(c);
            assert(rule_views(rules@) =~= rule_views(prev).push(c@));
            assert(rule_views(rules@) =~= rule_views(self.rules@.take(j + 1)));
            j = j + 1;
        }
        assert(self.rules@.take(self.rules@.len() as int) =~= self.rules@);
        assert(rule_views(rules@) =~= self@.1);
        AdConfig { ideas, rules }
    }
}

impl Clone for AdConfigVec {
    fn clone(&self) -> (r: Self)
        ensures
            r@ == self@,
    {
        let mut configs: Vec<AdConfig> = Vec::new();
        let mut i: usize = 0;
        while i < self.0.len()
            invariant
                i <= self.0@.len(),
                configs@.map_values(|c: AdConfig| c@) == self@.take(i as int),
            decreases self.0@.len() - i,
        {
            let c = self.0[i].clone();
            assert(c@ == self.0@[i as int]@);
            let ghost prev = configs@;
            configs.push(c);
            assert(configs@.map_values(|c: AdConfig| c@) =~= prev.map_values(|c: AdConfig| c@).push(c@));
            assert(configs@.map_values(|c: AdConfig| c@) =~= self@.take(i + 1));
            i = i + 1;
        }
        assert(self@.take(self.0@.len() as int) =~= self@);
        AdConfigVec(configs)
    }
}

impl Clone for Plan {
    fn clone(&self) -> (r: Self)
        ensures
            same_plan(r, *self),
    {
        let closed_reason = match &self.closed_reason {
            Some(s) => Some(s.clone()),
            None => None,
        };
        Plan {
            id: self.id,
            status: self.status,
            created_at: self.created_at,
            updated_at: self.updated_at,
            name: self.name.clone(),
            user_id: self.user_id,
            budget: self.budget,
            bid_type: self.bid_type,
            bid_price: self.bid_price,
            weekday: self.weekday.clone(),
            hour: self.hour.clone(),
            adconfig: self.adconfig.clone(),
            begin_time: self.begin_time,
            end_time: self.end_time,
            closed_time: self.closed_time,
            closed_reason,
        }
    }
}

} // verus!
