//! The DSP check: plans placed by the same rule whose delivery overlaps.
use vstd::prelude::*;
use super::alarm::{Alarm, AlarmDetails};
use super::plan::{
    Plan, AdConfigVec, configs_rules, rules_have_slot, views, windows_overlap, lists_share,
    same_plan, MAX_DURATION_SECONDS, now_micros,
};

verus! {

/// The DSP plan-overlap check.
pub struct DspMonitor {}

impl DspMonitor {
    /// The check's name.
    pub fn name(&self) -> (s: &'static str)
        ensures
            s@ == "DSP"@,
    {
        proof {
            reveal_strlit("DSP");
        }
        "DSP"
    }
}

/// The rule strings of a plan.
pub open spec fn plan_rules(p: Plan) -> Seq<Seq<char>> {
    configs_rules(p.adconfig@)
}

/// Every (rule, plan position) for the plans whose rules name a slot, plan
/// by plan, each plan's rules in order.
pub open spec fn plan_entries(plans: Seq<Plan>) -> Seq<(Seq<char>, int)>
    decreases plans.len(),
{
    if plans.len() == 0 {
        Seq::empty()
    } else {
        let rest = plan_entries(plans.drop_last());
        let i = plans.len() - 1;
        let rs = plan_rules(plans.last());
        if rules_have_slot(rs) {
            rest + rs.map_values(|r: Seq<char>| (r, i))
        } else {
            rest
        }
    }
}

/// The rules of the entries, each once, in order of first appearance.
pub open spec fn distinct_rules(entries: Seq<(Seq<char>, int)>) -> Seq<Seq<char>>
    decreases entries.len(),
{
    if entries.len() == 0 {
        Seq::empty()
    } else {
        let ks = distinct_rules(entries.drop_last());
        if ks.contains(entries.last().0) {
            ks
        } else {
            ks.push(entries.last().0)
        }
    }
}

/// The plan positions grouped under `rule`, in order (a plan whose rules
/// repeat `rule` is there as often).
pub open spec fn members(entries: Seq<(Seq<char>, int)>, rule: Seq<char>) -> Seq<int> {
    entries.filter(has_rule(rule)).map_values(|e: (Seq<char>, int)| e.1)
}

/// Whether an entry is under `rule`.
pub open spec fn has_rule(rule: Seq<char>) -> spec_fn((Seq<char>, int)) -> bool {
    |e: (Seq<char>, int)| e.0 == rule
}

/// Whether two plans overlap in delivery window, weekday and hour.
pub open spec fn plans_overlap(p: Plan, q: Plan, allow_seconds: i64, now: i64) -> bool {
    windows_overlap(p, q, allow_seconds, now) && lists_share(p.weekday@, q.weekday@) && lists_share(
        p.hour@,
        q.hour@,
    )
}

/// The overlapping pairs `(ms[i], ms[k])` for `i < k < j`, by `k`.
pub open spec fn row(plans: Seq<Plan>, ms: Seq<int>, i: int, j: int, allow: i64, now: i64) -> Seq<(int, int)>
    decreases j - i,
{
    if j <= i + 1 {
        Seq::empty()
    } else {
        let rest = row(plans, ms, i, j - 1, allow, now);
        if plans_overlap(plans[ms[i]], plans[ms[j - 1]], allow, now) {
            rest.push((ms[i], ms[j - 1]))
        } else {
            rest
        }
    }
}

/// The overlapping pairs of a group, first position by first position.
pub open spec fn rows(plans: Seq<Plan>, ms: Seq<int>, n: int, allow: i64, now: i64) -> Seq<(int, int)>
    decreases n,
{
    if n <= 0 {
        Seq::empty()
    } else {
        rows(plans, ms, n - 1, allow, now) + row(plans, ms, n - 1, ms.len() as int, allow, now)
    }
}

/// The overlapping pairs of every group, with the group's rule, groups in
/// order of their rule's first appearance.
pub open spec fn groups_pairs(plans: Seq<Plan>, keys: Seq<Seq<char>>, allow: i64, now: i64) -> Seq<(Seq<char>, int, int)>
    decreases keys.len(),
{
    if keys.len() == 0 {
        Seq::empty()
    } else {
        let rule = keys.last();
        let ms = members(plan_entries(plans), rule);
        groups_pairs(plans, keys.drop_last(), allow, now) + rows(plans, ms, ms.len() as int, allow, now).map_values(
            |t: (int, int)| (rule, t.0, t.1),
        )
    }
}

/// All overlapping pairs that the check reports.
pub open spec fn overlap_pairs(plans: Seq<Plan>, allow: i64, now: i64) -> Seq<(Seq<char>, int, int)> {
    groups_pairs(plans, distinct_rules(plan_entries(plans)), allow, now)
}

/// Whether the plan at position `p` is one of the plans and carries `rule`.
pub open spec fn carries(plans: Seq<Plan>, rule: Seq<char>, p: int) -> bool {
    0 <= p < plans.len() && plan_rules(plans[p]).contains(rule)
}

/// Whether both plans of a reported pair carry its rule and overlap.
pub open spec fn pair_sound(plans: Seq<Plan>, t: (Seq<char>, int, int), allow: i64, now: i64) -> bool {
    &&& carries(plans, t.0, t.1)
    &&& carries(plans, t.0, t.2)
    &&& plans_overlap(plans[t.1], plans[t.2], allow, now)
}

proof fn lemma_plan_entries(plans: Seq<Plan>)
    ensures
        forall|k: int| 0 <= k < plan_entries(plans).len() ==> carries(plans, #[trigger] plan_entries(plans)[k].0, plan_entries(plans)[k].1),
    decreases plans.len(),
{
    if plans.len() > 0 {
        let d = plans.drop_last();
        lemma_plan_entries(d);
        let rest = plan_entries(d);
        let i = plans.len() - 1;
        let rs = plan_rules(plans.last());
        assert forall|k: int| 0 <= k < plan_entries(plans).len() implies carries(plans, #[trigger] plan_entries(plans)[k].0, plan_entries(plans)[k].1) by {
            if k < rest.len() {
                assert(plan_entries(plans)[k] == rest[k]);
                assert(carries(d, rest[k].0, rest[k].1));
                assert(plans[rest[k].1] == d[rest[k].1]);
            } else {
                assert(rules_have_slot(rs));
                assert(plan_entries(plans)[k] == (rs[k - rest.len()], i));
                assert(rs.contains(rs[k - rest.len()]));
            }
        }
    }
}

proof fn lemma_members(plans: Seq<Plan>, rule: Seq<char>)
    ensures
        forall|k: int| 0 <= k < members(plan_entries(plans), rule).len() ==> carries(plans, rule, #[trigger] members(plan_entries(plans), rule)[k]),
{
    broadcast use vstd::seq_lib::group_filter_ensures;
    let entries = plan_entries(plans);
    let f = entries.filter(has_rule(rule));
    lemma_plan_entries(plans);
    assert forall|k: int| 0 <= k < members(entries, rule).len() implies carries(plans, rule, #[trigger] members(entries, rule)[k]) by {
        assert(members(entries, rule)[k] == f[k].1);
        assert(has_rule(rule)(f[k]));
        assert(f.contains(f[k]));
        entries.lemma_filter_contains_rev(has_rule(rule), f[k]);
        let j = choose|j: int| 0 <= j < entries.len() && entries[j] == f[k];
        assert(carries(plans, entries[j].0, entries[j].1));
    }
}

proof fn lemma_row(plans: Seq<Plan>, rule: Seq<char>, ms: Seq<int>, i: int, j: int, allow: i64, now: i64)
    requires
        0 <= i,
        j <= ms.len(),
        forall|k: int| 0 <= k < ms.len() ==> carries(plans, rule, #[trigger] ms[k]),
    ensures
        forall|k: int| 0 <= k < row(plans, ms, i, j, allow, now).len() ==> pair_sound(
            plans,
            (rule, (#[trigger] row(plans, ms, i, j, allow, now)[k]).0, row(plans, ms, i, j, allow, now)[k].1),
            allow,
            now,
        ),
    decreases j - i,
{
    if j > i + 1 {
        lemma_row(plans, rule, ms, i, j - 1, allow, now);
        assert(carries(plans, rule, ms[i]));
        assert(carries(plans, rule, ms[j - 1]));
    }
}

proof fn lemma_rows(plans: Seq<Plan>, rule: Seq<char>, ms: Seq<int>, n: int, allow: i64, now: i64)
    requires
        n <= ms.len(),
        forall|k: int| 0 <= k < ms.len() ==> carries(plans, rule, #[trigger] ms[k]),
    ensures
        forall|k: int| 0 <= k < rows(plans, ms, n, allow, now).len() ==> pair_sound(
            plans,
            (rule, (#[trigger] rows(plans, ms, n, allow, now)[k]).0, rows(plans, ms, n, allow, now)[k].1),
            allow,
            now,
        ),
    decreases n,
{
    if n > 0 {
        lemma_rows(plans, rule, ms, n - 1, allow, now);
        lemma_row(plans, rule, ms, n - 1, ms.len() as int, allow, now);
        let a = rows(plans, ms, n - 1, allow, now);
        let b = row(plans, ms, n - 1, ms.len() as int, allow, now);
        assert forall|k: int| 0 <= k < (a + b).len() implies pair_sound(plans, (rule, (#[trigger] (a + b)[k]).0, (a + b)[k].1), allow, now) by {
            if k < a.len() {
                assert((a + b)[k] == a[k]);
            } else {
                assert((a + b)[k] == b[k - a.len()]);
            }
        }
    }
}

proof fn lemma_groups_pairs(plans: Seq<Plan>, keys: Seq<Seq<char>>, allow: i64, now: i64)
    ensures
        forall|k: int| 0 <= k < groups_pairs(plans, keys, allow, now).len() ==> pair_sound(
            plans,
            #[trigger] groups_pairs(plans, keys, allow, now)[k],
            allow,
            now,
        ),
    decreases keys.len(),
{
    if keys.len() > 0 {
        let rule = keys.last();
        let ms = members(plan_entries(plans), rule);
        lemma_groups_pairs(plans, keys.drop_last(), allow, now);
        lemma_members(plans, rule);
        lemma_rows(plans, rule, ms, ms.len() as int, allow, now);
        let a = groups_pairs(plans, keys.drop_last(), allow, now);
        let r = rows(plans, ms, ms.len() as int, allow, now);
        let b = r.map_values(|t: (int, int)| (rule, t.0, t.1));
        assert forall|k: int| 0 <= k < (a + b).len() implies pair_sound(plans, #[trigger] (a + b)[k], allow, now) by {
            if k < a.len() {
                assert((a + b)[k] == a[k]);
            } else {
                assert((a + b)[k] == b[k - a.len()]);
                assert(b[k - a.len()] == (rule, r[k - a.len()].0, r[k - a.len()].1));
            }
        }
    }
}

/// Every pair that the DSP check reports under a rule is two plans that both
/// carry the rule and overlap in delivery window, weekday and hour.
pub proof fn lemma_overlap_pairs_sound(plans: Seq<Plan>, allow: i64, now: i64)
    ensures
        forall|k: int| 0 <= k < overlap_pairs(plans, allow, now).len() ==> pair_sound(
            plans,
            #[trigger] overlap_pairs(plans, allow, now)[k],
            allow,
            now,
        ),
{
    lemma_groups_pairs(plans, distinct_rules(plan_entries(plans)), allow, now);
}

proof fn lemma_row_complete(plans: Seq<Plan>, ms: Seq<int>, i: int, j: int, m: int, allow: i64, now: i64)
    requires
        0 <= i < m < j <= ms.len(),
        plans_overlap(plans[ms[i]], plans[ms[m]], allow, now),
    ensures
        row(plans, ms, i, j, allow, now).contains((ms[i], ms[m])),
    decreases j - i,
{
    let rest = row(plans, ms, i, j - 1, allow, now);
    if m == j - 1 {
        assert(row(plans, ms, i, j, allow, now) == rest.push((ms[i], ms[m])));
        assert(rest.push((ms[i], ms[m]))[rest.len() as int] == (ms[i], ms[m]));
    } else {
        lemma_row_complete(plans, ms, i, j - 1, m, allow, now);
        let w = choose|w: int| 0 <= w < rest.len() && rest[w] == (ms[i], ms[m]);
        if plans_overlap(plans[ms[i]], plans[ms[j - 1]], allow, now) {
            assert(rest.push((ms[i], ms[j - 1]))[w] == (ms[i], ms[m]));
        }
    }
}

proof fn lemma_rows_complete(plans: Seq<Plan>, ms: Seq<int>, n: int, i: int, m: int, allow: i64, now: i64)
    requires
        0 <= i < n <= ms.len(),
        i < m < ms.len(),
        plans_overlap(plans[ms[i]], plans[ms[m]], allow, now),
    ensures
        rows(plans, ms, n, allow, now).contains((ms[i], ms[m])),
    decreases n,
{
    let a = rows(plans, ms, n - 1, allow, now);
    let b = row(plans, ms, n - 1, ms.len() as int, allow, now);
    if i == n - 1 {
        lemma_row_complete(plans, ms, i, ms.len() as int, m, allow, now);
        let w = choose|w: int| 0 <= w < b.len() && b[w] == (ms[i], ms[m]);
        assert((a + b)[a.len() + w] == (ms[i], ms[m]));
    } else {
        lemma_rows_complete(plans, ms, n - 1, i, m, allow, now);
        let w = choose|w: int| 0 <= w < a.len() && a[w] == (ms[i], ms[m]);
        assert((a + b)[w] == (ms[i], ms[m]));
    }
}

proof fn lemma_groups_complete(plans: Seq<Plan>, keys: Seq<Seq<char>>, allow: i64, now: i64, q: int, i: int, m: int)
    requires
        0 <= q < keys.len(),
        0 <= i < m < members(plan_entries(plans), keys[q]).len(),
        plans_overlap(
            plans[members(plan_entries(plans), keys[q])[i]],
            plans[members(plan_entries(plans), keys[q])[m]],
            allow,
            now,
        ),
    ensures
        groups_pairs(plans, keys, allow, now).contains(
            (keys[q], members(plan_entries(plans), keys[q])[i], members(plan_entries(plans), keys[q])[m]),
        ),
    decreases keys.len(),
{
    let rule = keys[q];
    let ms = members(plan_entries(plans), rule);
    let t = (rule, ms[i], ms[m]);
    let a = groups_pairs(plans, keys.drop_last(), allow, now);
    if q == keys.len() - 1 {
        lemma_rows_complete(plans, ms, ms.len() as int, i, m, allow, now);
        let r = rows(plans, ms, ms.len() as int, allow, now);
        let b = r.map_values(|t: (int, int)| (rule, t.0, t.1));
        let w = choose|w: int| 0 <= w < r.len() && r[w] == (ms[i], ms[m]);
        assert(b[w] == t);
        assert((a + b)[a.len() + w] == t);
    } else {
        assert(keys.drop_last()[q] == rule);
        lemma_groups_complete(plans, keys.drop_last(), allow, now, q, i, m);
        let w = choose|w: int| 0 <= w < a.len() && a[w] == t;
        let last = keys.last();
        let ms2 = members(plan_entries(plans), last);
        let b = rows(plans, ms2, ms2.len() as int, allow, now).map_values(|t: (int, int)| (last, t.0, t.1));
        assert((a + b)[w] == t);
    }
}

/// Every two plans that carry the same slot rule and overlap are reported:
/// for a rule of the check and positions `i < m` among its plans, the pair
/// is among the check's pairs.
pub proof fn lemma_overlap_pairs_complete(plans: Seq<Plan>, allow: i64, now: i64, rule: Seq<char>, i: int, m: int)
    requires
        distinct_rules(plan_entries(plans)).contains(rule),
        0 <= i < m < members(plan_entries(plans), rule).len(),
        plans_overlap(
            plans[members(plan_entries(plans), rule)[i]],
            plans[members(plan_entries(plans), rule)[m]],
            allow,
            now,
        ),
    ensures
        overlap_pairs(plans, allow, now).contains(
            (rule, members(plan_entries(plans), rule)[i], members(plan_entries(plans), rule)[m]),
        ),
{
    let keys = distinct_rules(plan_entries(plans));
    let q = choose|q: int| 0 <= q < keys.len() && keys[q] == rule;
    lemma_groups_complete(plans, keys, allow, now, q, i, m);
}

/// Whether `a` is the alarm (point 4) for the rule and the two plans.
pub open spec fn overlap_alarm(a: Alarm, plans: Seq<Plan>, t: (Seq<char>, int, int)) -> bool {
    &&& a.point == 4
    &&& a.details matches AlarmDetails::PlanOverlap { rule, plans: pair } && {
        &&& rule@ == t.0
        &&& pair@.len() == 2
        &&& same_plan(pair@[0], plans[t.1])
        &&& same_plan(pair@[1], plans[t.2])
    }
}

/// The rules of the plans that name a slot, each once in order of first
/// appearance, and for each the positions of its plans.
pub fn group(plans: &Vec<Plan>) -> (r: (Vec<String>, Vec<Vec<usize>>))
    ensures
        views(r.0@) == distinct_rules(plan_entries(plans@)),
        r.1@.len() == r.0@.len(),
        forall|k: int| 0 <= k < r.1@.len() ==> (#[trigger] r.1@[k])@.map_values(|x: usize| x as int)
            == members(plan_entries(plans@), r.0@[k]@),
        forall|k: int, l: int| 0 <= k < r.1@.len() && 0 <= l < r.1@[k]@.len() ==> (#[trigger] r.1@[k]@[l]) < plans@.len(),
{
    let mut entries: Vec<(String, usize)> = Vec::new();
    let mut i: usize = 0;
    while i < plans.len()
        invariant
            i <= plans@.len(),
            entries@.map_values(|e: (String, usize)| (e.0@, e.1 as int)) == plan_entries(plans@.take(i as int)),
            forall|k: int| 0 <= k < entries@.len() ==> (#[trigger] entries@[k]).1 < i,
        decreases plans@.len() - i,
    {
        let rules = plans[i].adconfig.gen_rules();
        assert(plans@.take(i + 1).drop_last() =~= plans@.take(i as int));
        assert(plans@.take(i + 1).last() == plans@[i as int]);
        if AdConfigVec::has_slot(&rules) {
            let ghost before = entries@.map_values(|e: (String, usize)| (e.0@, e.1 as int));
            let mut j: usize = 0;
            while j < rules.len()
                invariant
                    j <= rules@.len(),
                    i < plans@.len(),
                    entries@.map_values(|e: (String, usize)| (e.0@, e.1 as int)) == before + views(rules@).take(j as int).map_values(
                        |r: Seq<char>| (r, i as int),
                    ),
                    forall|k: int| 0 <= k < entries@.len() ==> (#[trigger] entries@[k]).1 < i + 1,
                decreases rules@.len() - j,
            {
                let ghost prev = entries@.map_values(|e: (String, usize)| (e.0@, e.1 as int));
                entries.push((rules[j].clone(), i));
                assert(entries@.map_values(|e: (String, usize)| (e.0@, e.1 as int)) =~= prev.push((rules@[j as int]@, i as int)));
                assert(views(rules@).take(j + 1).map_values(|r: Seq<char>| (r, i as int)) =~= views(rules@).take(j as int).map_values(
                    |r: Seq<char>| (r, i as int),
                ).push((rules@[j as int]@, i as int)));
                j = j + 1;
            }
            assert(views(rules@).take(rules@.len() as int) =~= views(rules@));
        }
        i = i + 1;
    }
    assert(plans@.take(plans@.len() as int) =~= plans@);
    let ghost ev = entries@.map_values(|e: (String, usize)| (e.0@, e.1 as int));
    // The distinct rules, in order of first appearance.
    let mut keys: Vec<String> = Vec::new();
    let mut k: usize = 0;
    while k < entries.len()
        invariant
            k <= entries@.len(),
            ev == entries@.map_values(|e: (String, usize)| (e.0@, e.1 as int)),
            views(keys@) == distinct_rules(ev.take(k as int)),
        decreases entries@.len() - k,
    {
        assert(ev.take(k + 1).drop_last() =~= ev.take(k as int));
        assert(ev.take(k + 1).last() == (entries@[k as int].0@, entries@[k as int].1 as int));
        let mut seen = false;
        let mut m: usize = 0;
        while m < keys.len()
            invariant
                m <= keys@.len(),
                k < entries@.len(),
                seen == (exists|q: int| 0 <= q < m && keys@[q]@ == entries@[k as int].0@),
            decreases keys@.len() - m,
        {
            if keys[m] == entries[k].0 {
                seen = true;
            }
            m = m + 1;
        }
        let ghost prevk = keys@;
        if !seen {
            keys.push(entries[k].0.clone());
            assert(views(keys@) =~= views(prevk).push(entries@[k as int].0@));
        } else {
            proof {
                let q = choose|q: int| 0 <= q < keys@.len() && keys@[q]@ == entries@[k as int].0@;
                assert(views(keys@)[q] == entries@[k as int].0@);
            }
        }
        k = k + 1;
    }
    assert(ev.take(entries@.len() as int) =~= ev);
    // The members of each rule.
    let mut groups: Vec<Vec<usize>> = Vec::new();
    let mut g: usize = 0;
    while g < keys.len()
        invariant
            g <= keys@.len(),
            ev == entries@.map_values(|e: (String, usize)| (e.0@, e.1 as int)),
            ev == plan_entries(plans@),
            forall|q: int| 0 <= q < entries@.len() ==> (#[trigger] entries@[q]).1 < plans@.len(),
            groups@.len() == g,
            forall|q: int| 0 <= q < g ==> (#[trigger] groups@[q])@.map_values(|x: usize| x as int)
                == members(ev, keys@[q]@),
            forall|q: int, l: int| 0 <= q < g && 0 <= l < groups@[q]@.len() ==> (#[trigger] groups@[q]@[l]) < plans@.len(),
        decreases keys@.len() - g,
    {
        let mut ms: Vec<usize> = Vec::new();
        let mut e: usize = 0;
        while e < entries.len()
            invariant
                e <= entries@.len(),
                g < keys@.len(),
                ev == entries@.map_values(|e: (String, usize)| (e.0@, e.1 as int)),
                forall|q: int| 0 <= q < entries@.len() ==> (#[trigger] entries@[q]).1 < plans@.len(),
                ms@.map_values(|x: usize| x as int) == members(ev.take(e as int), keys@[g as int]@),
                forall|l: int| 0 <= l < ms@.len() ==> (#[trigger] ms@[l]) < plans@.len(),
            decreases entries@.len() - e,
        {
            proof {
                reveal_with_fuel(Seq::<_>::filter, 1);
            }
            assert(ev.take(e + 1).drop_last() =~= ev.take(e as int));
            assert(ev.take(e + 1).last() == (entries@[e as int].0@, entries@[e as int].1 as int));
            let ghost prevm = ms@;
            if entries[e].0 == keys[g] {
                ms.push(entries[e].1);
                assert(ms@.map_values(|x: usize| x as int) =~= prevm.map_values(|x: usize| x as int).push(entries@[e as int].1 as int));
            }
            e = e + 1;
        }
        assert(ev.take(entries@.len() as int) =~= ev);
        groups.push(ms);
        g = g + 1;
    }
    (keys, groups)
}


/// Whether each alarm is the overlap alarm of the pair at its position.
pub open spec fn alarms_match(alarms: Seq<Alarm>, plans: Seq<Plan>, pairs: Seq<(Seq<char>, int, int)>) -> bool {
    &&& alarms.len() == pairs.len()
    &&& forall|k: int| 0 <= k < alarms.len() ==> overlap_alarm(#[trigger] alarms[k], plans, pairs[k])
}

/// The overlap alarm for the rule and two plans.
fn overlap_alarm_of(rule: &String, p: &Plan, q: &Plan) -> (a: Alarm)
    ensures
        a.point == 4,
        a.details matches AlarmDetails::PlanOverlap { rule: r, plans: pair } && {
            &&& r@ == rule@
            &&& pair@.len() == 2
            &&& same_plan(pair@[0], *p)
            &&& same_plan(pair@[1], *q)
        },
{
    let mut pair: Vec<Plan> = Vec::new();
    pair.push(p.clone());
    pair.push(q.clone());
    Alarm { point: 4, details: AlarmDetails::PlanOverlap { rule: rule.clone(), plans: pair } }
}

impl DspMonitor {
    /// The DSP check with the current time read once: an alarm (point 4)
    /// for every two plans grouped under the same rule that overlap.
    pub fn process_plans(plans: &Vec<Plan>, allow_overlap_max: i64) -> (alarms: Vec<Alarm>)
        requires
            -MAX_DURATION_SECONDS <= allow_overlap_max <= MAX_DURATION_SECONDS,
        ensures
            exists|now: i64| alarms_match(alarms@, plans@, overlap_pairs(plans@, allow_overlap_max, now)),
    {
        let now = now_micros();
        let alarms = Self::process_plans_at(plans, allow_overlap_max, now);
        assert(alarms_match(alarms@, plans@, overlap_pairs(plans@, allow_overlap_max, now)));
        alarms
    }

    /// The DSP check at the time `now`: for each rule in order of first
    /// appearance, for each two positions `i < j` of its plans, an alarm
    /// when the two plans overlap (`overlap_pairs`).
    pub fn process_plans_at(plans: &Vec<Plan>, allow_overlap_max: i64, now: i64) -> (alarms: Vec<Alarm>)
        requires
            -MAX_DURATION_SECONDS <= allow_overlap_max <= MAX_DURATION_SECONDS,
        ensures
            alarms_match(alarms@, plans@, overlap_pairs(plans@, allow_overlap_max, now)),
    {
        let (keys, groups) = group(plans);
        let ghost kv = views(keys@);
        let ghost entries = plan_entries(plans@);
        let mut alarms: Vec<Alarm> = Vec::new();
        let mut g: usize = 0;
        while g < keys.len()
            invariant
                g <= keys@.len(),
                kv == views(keys@),
                kv == distinct_rules(entries),
                entries == plan_entries(plans@),
                groups@.len() == keys@.len(),
                forall|k: int| 0 <= k < groups@.len() ==> (#[trigger] groups@[k])@.map_values(|x: usize| x as int)
                    == members(entries, keys@[k]@),
                forall|k: int, l: int| 0 <= k < groups@.len() && 0 <= l < groups@[k]@.len() ==> (#[trigger] groups@[k]@[l]) < plans@.len(),
                -MAX_DURATION_SECONDS <= allow_overlap_max <= MAX_DURATION_SECONDS,
                alarms_match(alarms@, plans@, groups_pairs(plans@, kv.take(g as int), allow_overlap_max, now)),
            decreases keys@.len() - g,
        {
            let ms = &groups[g];
            let ghost msv = ms@.map_values(|x: usize| x as int);
            let ghost rule = keys@[g as int]@;
            let ghost base = groups_pairs(plans@, kv.take(g as int), allow_overlap_max, now);
            let n = ms.len();
            let mut i: usize = 0;
            while i < n
                invariant
                    n == ms@.len(),
                    msv == ms@.map_values(|x: usize| x as int),
                    forall|l: int| 0 <= l < ms@.len() ==> (#[trigger] ms@[l]) < plans@.len(),
                    i <= n,
                    g < keys@.len(),
                    rule == keys@[g as int]@,
                    -MAX_DURATION_SECONDS <= allow_overlap_max <= MAX_DURATION_SECONDS,
                    alarms_match(alarms@, plans@, base + rows(plans@, msv, i as int, allow_overlap_max, now).map_values(
                        |t: (int, int)| (rule, t.0, t.1),
                    )),
                decreases n - i,
            {
                let mut j: usize = i + 1;
                while j < n
                    invariant
                        n == ms@.len(),
                        msv == ms@.map_values(|x: usize| x as int),
                        forall|l: int| 0 <= l < ms@.len() ==> (#[trigger] ms@[l]) < plans@.len(),
                        i < n,
                        i + 1 <= j <= n,
                        g < keys@.len(),
                        rule == keys@[g as int]@,
                        -MAX_DURATION_SECONDS <= allow_overlap_max <= MAX_DURATION_SECONDS,
                        alarms_match(alarms@, plans@, base + (rows(plans@, msv, i as int, allow_overlap_max, now)
                            + row(plans@, msv, i as int, j as int, allow_overlap_max, now)).map_values(
                            |t: (int, int)| (rule, t.0, t.1),
                        )),
                    decreases n - j,
                {
                    let p = &plans[ms[i]];
                    let q = &plans[ms[j]];
                    let ghost before = base + (rows(plans@, msv, i as int, allow_overlap_max, now)
                        + row(plans@, msv, i as int, j as int, allow_overlap_max, now)).map_values(
                        |t: (int, int)| (rule, t.0, t.1),
                    );
                    let ghost after = base + (rows(plans@, msv, i as int, allow_overlap_max, now)
                        + row(plans@, msv, i as int, j + 1, allow_overlap_max, now)).map_values(
                        |t: (int, int)| (rule, t.0, t.1),
                    );
                    if p.time_overlap_at(q, allow_overlap_max, now) {
                        let a = overlap_alarm_of(&keys[g], p, q);
                        let ghost prev = alarms@;
                        alarms.push(a);
                        assert(after =~= before.push((rule, msv[i as int], msv[j as int])));
                        assert(alarms@ =~= prev.push(a));
                    } else {
                        assert(after =~= before);
                    }
                    j = j + 1;
                }
                assert(rows(plans@, msv, i + 1, allow_overlap_max, now) == rows(plans@, msv, i as int, allow_overlap_max, now)
                    + row(plans@, msv, i as int, n as int, allow_overlap_max, now));
                i = i + 1;
            }
            assert(kv.take(g + 1).drop_last() =~= kv.take(g as int));
            assert(kv.take(g + 1).last() == rule);
            assert(msv == members(entries, rule));
            g = g + 1;
        }
        assert(kv.take(keys@.len() as int) =~= kv);
        alarms
    }
}

} // verus!
