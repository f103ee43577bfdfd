//! Daily slot reports and the check for counts that keep falling.
use vstd::prelude::*;
use super::alarm::{Alarm, AlarmDetails, report_alarm_view};
use super::config::ReportMonitorConfig;

verus! {

/// One slot's totals for one day. `date` counts days from the common era
/// (0001-01-01 is day 1, a Monday); counts are whole numbers.
#[derive(Debug, Clone, Copy, PartialEq, Eq, Structural)]
pub struct Report {
    pub slot_id: i32,
    pub date: i32,
    pub req: i128,
    pub fil: i128,
    pub cli: i128,
    pub imp: i128,
}

/// Which count of a report to look at.
#[derive(Debug, Clone, Copy, PartialEq, Eq, Structural)]
pub enum ReportCountField {
    Req,
    Fil,
    Cli,
    Imp,
}

/// The count `field` of `r`.
pub open spec fn count_of(r: Report, field: ReportCountField) -> i128 {
    match field {
        ReportCountField::Req => r.req,
        ReportCountField::Fil => r.fil,
        ReportCountField::Cli => r.cli,
        ReportCountField::Imp => r.imp,
    }
}

impl Report {
    /// The count `field` of this report.
    pub fn count(&self, field: ReportCountField) -> (c: i128)
        ensures
            c == count_of(*self, field),
    {
        match field {
            ReportCountField::Req => self.req,
            ReportCountField::Fil => self.fil,
            ReportCountField::Cli => self.cli,
            ReportCountField::Imp => self.imp,
        }
    }
}

/// The day of the week of a day number: 0 is Monday, 6 is Sunday.
pub open spec fn weekday_of(date: i32) -> int {
    (date - 1) % 7
}

/// Whether a day falls on a Saturday or a Sunday.
pub open spec fn is_weekend(date: i32) -> bool {
    weekday_of(date) >= 5
}

/// Decides `is_weekend`.
pub fn weekend(date: i32) -> (b: bool)
    ensures
        b == is_weekend(date),
{
    // shifted by a multiple of 7 so that the operand of `%` is never negative
    let d: i64 = date as i64 - 1 + 2147483653;
    let w: i64 = d % 7;
    assert(w == (date - 1) % 7) by (nonlinear_arith)
        requires
            d == date - 1 + 7 * 306783379,
            d >= 0,
            w == d % 7,
    ;
    w >= 5
}

/// Whether a report is kept: a weekday with at least `fill_count_min` fills.
pub open spec fn kept(r: Report, fill_count_min: u32) -> bool {
    !is_weekend(r.date) && !(r.fil < fill_count_min as i128)
}

/// Whether the count fell from `cur` to `next`.
pub open spec fn falls(cur: Report, next: Report, field: ReportCountField) -> bool {
    count_of(cur, field) > count_of(next, field)
}

/// Whether the count rose from `cur` to `next`.
pub open spec fn rises(cur: Report, next: Report, field: ReportCountField) -> bool {
    count_of(cur, field) < count_of(next, field)
}

/// Whether the count fell from `cur` to `next`.
pub fn count_down(cur: &Report, next: &Report, field: ReportCountField) -> (b: bool)
    ensures
        b == falls(*cur, *next, field),
{
    cur.count(field) > next.count(field)
}

/// Whether the count rose from `cur` to `next`.
pub fn count_up(cur: &Report, next: &Report, field: ReportCountField) -> (b: bool)
    ensures
        b == rises(*cur, *next, field),
{
    cur.count(field) < next.count(field)
}

/// The position of the entry with key `k` in an association list, or -1.
pub open spec fn key_index<K, V>(m: Seq<(K, V)>, k: K) -> int
    decreases m.len(),
{
    if m.len() == 0 {
        -1
    } else if m.last().0 == k {
        m.len() - 1
    } else {
        key_index(m.drop_last(), k)
    }
}

/// `m` with `v` stored under `k`: in place of an entry with key `k`, else at the end.
pub open spec fn assoc_insert<K, V>(m: Seq<(K, V)>, k: K, v: V) -> Seq<(K, V)> {
    let i = key_index(m, k);
    if i >= 0 {
        m.update(i, (k, v))
    } else {
        m.push((k, v))
    }
}

/// The state of a run over consecutive days: the runs recorded so far
/// (by number of falls), the falls of the current run, its reports.
pub type CalcState = (Seq<(u32, Seq<Report>)>, u32, Seq<Report>);

/// The state after the pair `(cur, next)`: `cur` joins the current run; a
/// fall counts; a rise records the run under its number of falls and starts
/// a new one; an unchanged count does neither.
pub open spec fn calc_step(st: CalcState, cur: Report, next: Report, field: ReportCountField) -> CalcState {
    let reports = st.2.push(cur);
    if falls(cur, next, field) {
        (st.0, (st.1 + 1) as u32, reports)
    } else if rises(cur, next, field) {
        (assoc_insert(st.0, st.1, reports), 0, Seq::empty())
    } else {
        (st.0, st.1, reports)
    }
}

/// The state after the first `k` pairs of consecutive reports.
pub open spec fn calc_state(reports: Seq<Report>, field: ReportCountField, k: int) -> CalcState
    decreases k,
{
    if k <= 0 {
        (Seq::empty(), 0, Seq::empty())
    } else {
        calc_step(calc_state(reports, field, k - 1), reports[k - 1], reports[k], field)
    }
}

/// The runs recorded over all consecutive pairs; the run still open at the
/// end is not recorded.
pub open spec fn calc_spec(reports: Seq<Report>, field: ReportCountField) -> Seq<(u32, Seq<Report>)> {
    calc_state(reports, field, reports.len() - 1).0
}

/// The view of an association list of report runs.
pub open spec fn runs_view(m: Seq<(u32, Vec<Report>)>) -> Seq<(u32, Seq<Report>)> {
    m.map_values(|e: (u32, Vec<Report>)| (e.0, e.1@))
}

proof fn lemma_calc_count_bound(reports: Seq<Report>, field: ReportCountField, k: int)
    requires
        0 <= k,
    ensures
        calc_state(reports, field, k).1 <= k,
    decreases k,
{
    if k > 0 {
        lemma_calc_count_bound(reports, field, k - 1);
    }
}

/// Stores `v` under `k` in the association list `m` (`assoc_insert`).
fn insert_run(m: &mut Vec<(u32, Vec<Report>)>, k: u32, v: Vec<Report>)
    ensures
        runs_view(final(m)@) == assoc_insert(runs_view(old(m)@), k, v@),
{
    let ghost before = runs_view(m@);
    let mut i: usize = m.len();
    assert(before.take(i as int) =~= before);
    while i > 0
        invariant
            i <= m@.len(),
            runs_view(m@) == before,
            before == runs_view(old(m)@),
            key_index(before, k) == key_index(before.take(i as int), k),
        decreases i,
    {
        assert(before.take(i as int).drop_last() =~= before.take(i - 1));
        if m[i - 1].0 == k {
            assert(key_index(before, k) == i - 1);
            m.set(i - 1, (k, v));
            assert(runs_view(m@) =~= before.update(i - 1, (k, v@)));
            return;
        }
        i = i - 1;
    }
    assert(before.take(0) =~= Seq::<(u32, Seq<Report>)>::empty());
    m.push((k, v));
    assert(runs_view(m@) =~= before.push((k, v@)));
}

/// The runs of consecutive reports by the count `field` (`calc_spec`).
pub fn calc(reports: &Vec<Report>, field: ReportCountField) -> (map: Vec<(u32, Vec<Report>)>)
    requires
        1 <= reports@.len() <= u32::MAX,
    ensures
        runs_view(map@) == calc_spec(reports@, field),
{
    let mut map: Vec<(u32, Vec<Report>)> = Vec::new();
    let mut count: u32 = 0;
    let mut run: Vec<Report> = Vec::new();
    let n = reports.len() - 1;
    let mut idx: usize = 0;
    while idx < n
        invariant
            n == reports@.len() - 1,
            n < u32::MAX,
            idx <= n,
            (runs_view(map@), count, run@) == calc_state(reports@, field, idx as int),
        decreases n - idx,
    {
        let cur = reports[idx];
        let next = reports[idx + 1];
        proof {
            lemma_calc_count_bound(reports@, field, idx as int);
        }
        run.push(cur);
        if count_down(&cur, &next, field) {
            count = count + 1;
        } else if count_up(&cur, &next, field) {
            insert_run(&mut map, count, run);
            run = Vec::new();
            count = 0;
        }
        idx = idx + 1;
    }
    map
}

/// Whether no key occurs twice in an association list.
pub open spec fn keys_distinct<K, V>(m: Seq<(K, V)>) -> bool {
    forall|i: int, j: int| 0 <= i < j < m.len() ==> m[i].0 != m[j].0
}

proof fn lemma_key_index<K, V>(m: Seq<(K, V)>, k: K)
    ensures
        -1 <= key_index(m, k) < m.len(),
        key_index(m, k) >= 0 ==> m[key_index(m, k)].0 == k,
        key_index(m, k) < 0 ==> forall|i: int| 0 <= i < m.len() ==> m[i].0 != k,
    decreases m.len(),
{
    if m.len() > 0 && m.last().0 != k {
        lemma_key_index(m.drop_last(), k);
        assert forall|i: int| 0 <= i < m.len() && key_index(m, k) < 0 implies m[i].0 != k by {
            if i < m.len() - 1 {
                assert(m[i] == m.drop_last()[i]);
            }
        }
    }
}

proof fn lemma_key_index_update<K, V>(m: Seq<(K, V)>, i: int, e: (K, V), x: K)
    requires
        0 <= i < m.len(),
        m[i].0 == e.0,
    ensures
        key_index(m.update(i, e), x) == key_index(m, x),
    decreases m.len(),
{
    let u = m.update(i, e);
    if i < m.len() - 1 {
        assert(u.drop_last() =~= m.drop_last().update(i, e));
        lemma_key_index_update(m.drop_last(), i, e, x);
    } else {
        assert(u.drop_last() =~= m.drop_last());
    }
}

/// What an association list holds after storing `v` under `k`: `v` under
/// `k`, and under every other key what it held before.
pub proof fn lemma_assoc_insert_lookup<K, V>(m: Seq<(K, V)>, k: K, v: V, k2: K)
    ensures
        key_index(assoc_insert(m, k, v), k) >= 0,
        assoc_insert(m, k, v)[key_index(assoc_insert(m, k, v), k)] == (k, v),
        k2 != k ==> key_index(assoc_insert(m, k, v), k2) == key_index(m, k2),
        k2 != k && key_index(m, k2) >= 0 ==> assoc_insert(m, k, v)[key_index(m, k2)] == m[key_index(m, k2)],
{
    lemma_key_index(m, k);
    lemma_key_index(m, k2);
    let i = key_index(m, k);
    if i >= 0 {
        lemma_key_index_update(m, i, (k, v), k);
        lemma_key_index_update(m, i, (k, v), k2);
    } else {
        assert(m.push((k, v)).drop_last() =~= m);
    }
}

/// Storing under a key keeps the keys of an association list distinct.
pub proof fn lemma_assoc_insert_distinct<K, V>(m: Seq<(K, V)>, k: K, v: V)
    requires
        keys_distinct(m),
    ensures
        keys_distinct(assoc_insert(m, k, v)),
        assoc_insert(m, k, v).len() == m.len() + (if key_index(m, k) >= 0 { 0int } else { 1int }),
{
    lemma_key_index(m, k);
}

/// Each number of falls labels at most one recorded run: the runs form a map
/// from that number to the reports of the run last recorded under it.
pub proof fn lemma_calc_keys_distinct(reports: Seq<Report>, field: ReportCountField)
    ensures
        keys_distinct(calc_spec(reports, field)),
{
    lemma_calc_state_distinct(reports, field, reports.len() - 1);
}

proof fn lemma_calc_state_distinct(reports: Seq<Report>, field: ReportCountField, k: int)
    ensures
        keys_distinct(calc_state(reports, field, k).0),
    decreases k,
{
    if k > 0 {
        lemma_calc_state_distinct(reports, field, k - 1);
        let st = calc_state(reports, field, k - 1);
        lemma_assoc_insert_distinct(st.0, st.1, st.2.push(reports[k - 1]));
    }
}

/// The slot ids of the reports, each once, in order of first appearance.
pub open spec fn slot_ids_of(reports: Seq<Report>) -> Seq<i32>
    decreases reports.len(),
{
    if reports.len() == 0 {
        Seq::empty()
    } else {
        let ids = slot_ids_of(reports.drop_last());
        if ids.contains(reports.last().slot_id) {
            ids
        } else {
            ids.push(reports.last().slot_id)
        }
    }
}

/// The reports of one slot, in order.
pub open spec fn reports_of(reports: Seq<Report>, slot_id: i32) -> Seq<Report> {
    reports.filter(in_slot(slot_id))
}

/// Whether a report is of the slot `slot_id`.
pub open spec fn in_slot(slot_id: i32) -> spec_fn(Report) -> bool {
    |r: Report| r.slot_id == slot_id
}


/// `s` with `x` placed after every report dated no later than it; on a list
/// sorted by date, the stable place of `x`.
pub open spec fn insert_by_date(s: Seq<Report>, x: Report) -> Seq<Report>
    decreases s.len(),
{
    if s.len() == 0 {
        seq![x]
    } else if s.last().date <= x.date {
        s.push(x)
    } else {
        insert_by_date(s.drop_last(), x).push(s.last())
    }
}

/// The reports sorted by date, reports of the same date in their given
/// order (a stable sort, as `sort_by` does).
pub open spec fn sort_by_date(s: Seq<Report>) -> Seq<Report>
    decreases s.len(),
{
    if s.len() == 0 {
        Seq::empty()
    } else {
        insert_by_date(sort_by_date(s.drop_last()), s.last())
    }
}

proof fn lemma_insert_at(s: Seq<Report>, x: Report, j: int)
    requires
        0 <= j <= s.len(),
        forall|k: int| j <= k < s.len() ==> s[k].date > x.date,
        j > 0 ==> s[j - 1].date <= x.date,
    ensures
        insert_by_date(s, x) == s.insert(j, x),
    decreases s.len(),
{
    if s.len() == 0 {
        assert(s.insert(j, x) =~= seq![x]);
    } else if j == s.len() {
        assert(s.insert(j, x) =~= s.push(x));
    } else {
        lemma_insert_at(s.drop_last(), x, j);
        assert(s.drop_last().insert(j, x).push(s.last()) =~= s.insert(j, x));
    }
}

/// Sorts the reports by date, stably (`sort_by_date`).
pub fn sort_reports(reports: &Vec<Report>) -> (out: Vec<Report>)
    ensures
        out@ == sort_by_date(reports@),
{
    let mut out: Vec<Report> = Vec::new();
    let mut i: usize = 0;
    while i < reports.len()
        invariant
            i <= reports@.len(),
            out@ == sort_by_date(reports@.take(i as int)),
        decreases reports@.len() - i,
    {
        let x = reports[i];
        let mut j: usize = out.len();
        while j > 0 && out[j - 1].date > x.date
            invariant
                j <= out@.len(),
                forall|k: int| j <= k < out@.len() ==> out@[k].date > x.date,
            decreases j,
        {
            j = j - 1;
        }
        proof {
            lemma_insert_at(out@, x, j as int);
        }
        out.insert(j, x);
        assert(reports@.take(i + 1).drop_last() =~= reports@.take(i as int));
        i = i + 1;
    }
    assert(reports@.take(reports@.len() as int) =~= reports@);
    out
}

/// The runs with more falls than `countdown_days`, as alarms of `point`.
pub open spec fn field_alarms(runs: Seq<(u32, Seq<Report>)>, point: u32, countdown_days: u32) -> Seq<(u32, Seq<Report>)> {
    runs.filter(over_countdown(countdown_days)).map_values(with_point(point))
}

/// Whether a run has more falls than `countdown_days`.
pub open spec fn over_countdown(countdown_days: u32) -> spec_fn((u32, Seq<Report>)) -> bool {
    |e: (u32, Seq<Report>)| e.0 > countdown_days
}

/// A run as the alarm of `point`.
pub open spec fn with_point(point: u32) -> spec_fn((u32, Seq<Report>)) -> (u32, Seq<Report>) {
    |e: (u32, Seq<Report>)| (point, e.1)
}

/// The alarms for one slot's reports sorted by date: requests (5), fills
/// (6), clicks (7), impressions (8).
pub open spec fn slot_alarms(sorted: Seq<Report>, countdown_days: u32) -> Seq<(u32, Seq<Report>)> {
    field_alarms(calc_spec(sorted, ReportCountField::Req), 5, countdown_days)
        + field_alarms(calc_spec(sorted, ReportCountField::Fil), 6, countdown_days)
        + field_alarms(calc_spec(sorted, ReportCountField::Cli), 7, countdown_days)
        + field_alarms(calc_spec(sorted, ReportCountField::Imp), 8, countdown_days)
}

/// The alarms of the slots `ids`, in order: a slot with fewer than
/// `exclude_days` kept reports raises none.
pub open spec fn slots_alarms(kept: Seq<Report>, ids: Seq<i32>, exclude_days: u32, countdown_days: u32) -> Seq<(u32, Seq<Report>)>
    decreases ids.len(),
{
    if ids.len() == 0 {
        Seq::empty()
    } else {
        let g = reports_of(kept, ids.last());
        let rest = slots_alarms(kept, ids.drop_last(), exclude_days, countdown_days);
        if g.len() < exclude_days {
            rest
        } else {
            rest + slot_alarms(sort_by_date(g), countdown_days)
        }
    }
}

/// The reports kept for the check: weekdays with enough fills.
pub open spec fn kept_reports(reports: Seq<Report>, fill_count_min: u32) -> Seq<Report> {
    reports.filter(is_kept(fill_count_min))
}

/// Whether a report is kept (`kept`).
pub open spec fn is_kept(fill_count_min: u32) -> spec_fn(Report) -> bool {
    |r: Report| kept(r, fill_count_min)
}

/// All alarms of the report check, slot by slot in order of first report.
pub open spec fn report_alarms(reports: Seq<Report>, config: ReportMonitorConfig) -> Seq<(u32, Seq<Report>)> {
    let kept = kept_reports(reports, config.fill_count_min);
    slots_alarms(kept, slot_ids_of(kept), config.exclude_days, config.countdown_days)
}

/// The reports that are kept for the check, in order.
pub fn filter_reports(reports: &Vec<Report>, fill_count_min: u32) -> (out: Vec<Report>)
    ensures
        out@ == kept_reports(reports@, fill_count_min),
{
    let mut out: Vec<Report> = Vec::new();
    let mut i: usize = 0;
    while i < reports.len()
        invariant
            i <= reports@.len(),
            out@ == kept_reports(reports@.take(i as int), fill_count_min),
        decreases reports@.len() - i,
    {
        proof {
            reveal_with_fuel(Seq::<_>::filter, 1);
        }
        let r = reports[i];
        assert(reports@.take(i + 1).drop_last() =~= reports@.take(i as int));
        if !weekend(r.date) && !(r.fil < fill_count_min as i128) {
            out.push(r);
        }
        i = i + 1;
    }
    assert(reports@.take(reports@.len() as int) =~= reports@);
    out
}

/// The slot ids of the reports, each once, in order of first appearance.
pub fn slot_ids(reports: &Vec<Report>) -> (ids: Vec<i32>)
    ensures
        ids@ == slot_ids_of(reports@),
{
    let mut ids: Vec<i32> = Vec::new();
    let mut i: usize = 0;
    while i < reports.len()
        invariant
            i <= reports@.len(),
            ids@ == slot_ids_of(reports@.take(i as int)),
        decreases reports@.len() - i,
    {
        let id = reports[i].slot_id;
        assert(reports@.take(i + 1).drop_last() =~= reports@.take(i as int));
        let mut j: usize = 0;
        let mut seen = false;
        while j < ids.len()
            invariant
                j <= ids@.len(),
                seen == (exists|k: int| 0 <= k < j && ids@[k] == id),
            decreases ids@.len() - j,
        {
            if ids[j] == id {
                seen = true;
            }
            j = j + 1;
        }
        if !seen {
            ids.push(id);
        }
        i = i + 1;
    }
    assert(reports@.take(reports@.len() as int) =~= reports@);
    ids
}

/// The reports of one slot, in order.
pub fn group(reports: &Vec<Report>, slot_id: i32) -> (out: Vec<Report>)
    ensures
        out@ == reports_of(reports@, slot_id),
{
    let mut out: Vec<Report> = Vec::new();
    let mut i: usize = 0;
    while i < reports.len()
        invariant
            i <= reports@.len(),
            out@ == reports_of(reports@.take(i as int), slot_id),
        decreases reports@.len() - i,
    {
        proof {
            reveal_with_fuel(Seq::<_>::filter, 1);
        }
        assert(reports@.take(i + 1).drop_last() =~= reports@.take(i as int));
        if reports[i].slot_id == slot_id {
            out.push(reports[i]);
        }
        i = i + 1;
    }
    assert(reports@.take(reports@.len() as int) =~= reports@);
    out
}

proof fn lemma_slot_has_reports(reports: Seq<Report>, id: i32)
    requires
        slot_ids_of(reports).contains(id),
    ensures
        reports_of(reports, id).len() >= 1,
    decreases reports.len(),
{
    reveal_with_fuel(Seq::<_>::filter, 1);
    if reports.len() > 0 {
        let ids = slot_ids_of(reports.drop_last());
        if reports.last().slot_id != id {
            assert(ids.contains(id));
            lemma_slot_has_reports(reports.drop_last(), id);
        }
    }
}

/// An alarm of `point` for a run of reports.
pub fn build_alarm(point: u32, reports: Vec<Report>) -> (a: Alarm)
    ensures
        report_alarm_view(a) == (point, reports@),
        a.details is Reports,
{
    Alarm { point, details: AlarmDetails::Reports { report: reports } }
}

/// A copy of a list of reports.
pub fn copy_reports(v: &Vec<Report>) -> (r: Vec<Report>)
    ensures
        r@ == v@,
{
    let mut out: Vec<Report> = Vec::new();
    let mut i: usize = 0;
    while i < v.len()
        invariant
            i <= v@.len(),
            out@ == v@.take(i as int),
        decreases v@.len() - i,
    {
        out.push(v[i]);
        assert(out@ =~= v@.take(i + 1));
        i = i + 1;
    }
    assert(out@ =~= v@);
    out
}

/// Appends the alarms of `point` for the runs with more falls than
/// `countdown_days`.
fn push_field_alarms(alarms: &mut Vec<Alarm>, runs: &Vec<(u32, Vec<Report>)>, point: u32, countdown_days: u32)
    ensures
        final(alarms)@.map_values(|a: Alarm| report_alarm_view(a))
            == old(alarms)@.map_values(|a: Alarm| report_alarm_view(a)) + field_alarms(runs_view(runs@), point, countdown_days),
        forall|k: int| 0 <= k < old(alarms)@.len() ==> final(alarms)@[k] == old(alarms)@[k],
        forall|k: int| old(alarms)@.len() <= k < final(alarms)@.len() ==> (#[trigger] final(alarms)@[k]).details is Reports,
        final(alarms)@.len() >= old(alarms)@.len(),
{
    let ghost start = alarms@;
    let ghost rv = runs_view(runs@);
    let mut i: usize = 0;
    assert(rv.take(0).filter(over_countdown(countdown_days)) =~= Seq::<(u32, Seq<Report>)>::empty());
    assert(field_alarms(rv.take(0), point, countdown_days) =~= Seq::<(u32, Seq<Report>)>::empty());
    assert(start.map_values(|a: Alarm| report_alarm_view(a)) + Seq::<(u32, Seq<Report>)>::empty() =~= start.map_values(|a: Alarm| report_alarm_view(a)));
    while i < runs.len()
        invariant
            i <= runs@.len(),
            rv == runs_view(runs@),
            alarms@.map_values(|a: Alarm| report_alarm_view(a))
                == start.map_values(|a: Alarm| report_alarm_view(a)) + field_alarms(rv.take(i as int), point, countdown_days),
            start == old(alarms)@,
            alarms@.len() >= start.len(),
            forall|k: int| 0 <= k < start.len() ==> alarms@[k] == start[k],
            forall|k: int| start.len() <= k < alarms@.len() ==> (#[trigger] alarms@[k]).details is Reports,
        decreases runs@.len() - i,
    {
        proof {
            reveal_with_fuel(Seq::<_>::filter, 1);
        }
        assert(rv.take(i + 1).drop_last() =~= rv.take(i as int));
        assert(rv.take(i + 1).last() == rv[i as int]);
        let ghost prev = alarms@;
        if runs[i].0 > countdown_days {
            let reports = copy_reports(&runs[i].1);
            alarms.push(build_alarm(point, reports));
            assert(alarms@.map_values(|a: Alarm| report_alarm_view(a)) =~= prev.map_values(|a: Alarm| report_alarm_view(a)).push((point, rv[i as int].1)));
            assert(field_alarms(rv.take(i + 1), point, countdown_days) =~= field_alarms(rv.take(i as int), point, countdown_days).push((point, rv[i as int].1)));
        } else {
            assert(field_alarms(rv.take(i + 1), point, countdown_days) =~= field_alarms(rv.take(i as int), point, countdown_days));
        }
        i = i + 1;
    }
    assert(rv.take(runs@.len() as int) =~= rv);
}

/// The report check: keeps weekday reports with at least `fill_count_min`
/// fills, groups them by slot, skips slots with fewer than `exclude_days`
/// reports, sorts each slot's by date, and raises an alarm for every run
/// whose count fell more than `countdown_days` times (`report_alarms`).
pub fn process_reports(reports: Vec<Report>, config: &ReportMonitorConfig) -> (alarms: Vec<Alarm>)
    requires
        reports@.len() <= u32::MAX,
    ensures
        alarms@.map_values(|a: Alarm| report_alarm_view(a)) == report_alarms(reports@, *config),
        forall|k: int| 0 <= k < alarms@.len() ==> (#[trigger] alarms@[k]).details is Reports,
        forall|k: int| 0 <= k < alarms@.len() ==> fell_as_pointed(report_alarm_view(#[trigger] alarms@[k]), config.countdown_days),
{
    let kept_list = filter_reports(&reports, config.fill_count_min);
    let ids = slot_ids(&kept_list);
    let mut alarms: Vec<Alarm> = Vec::new();
    let mut i: usize = 0;
    proof {
        reveal_with_fuel(Seq::<_>::filter, 1);
    }
    assert(kept_list@.len() <= reports@.len()) by {
        reports@.lemma_filter_len(is_kept(config.fill_count_min));
    }
    while i < ids.len()
        invariant
            i <= ids@.len(),
            ids@ == slot_ids_of(kept_list@),
            kept_list@ == kept_reports(reports@, config.fill_count_min),
            kept_list@.len() <= u32::MAX,
            alarms@.map_values(|a: Alarm| report_alarm_view(a))
                == slots_alarms(kept_list@, ids@.take(i as int), config.exclude_days, config.countdown_days),
            forall|k: int| 0 <= k < alarms@.len() ==> (#[trigger] alarms@[k]).details is Reports,
        decreases ids@.len() - i,
    {
        let g = group(&kept_list, ids[i]);
        assert(ids@.take(i + 1).drop_last() =~= ids@.take(i as int));
        assert(ids@.take(i + 1).last() == ids@[i as int]);
        if g.len() < config.exclude_days as usize {
            i = i + 1;
            continue;
        }
        proof {
            assert(ids@.contains(ids@[i as int]));
            lemma_slot_has_reports(kept_list@, ids@[i as int]);
            kept_list@.lemma_filter_len(in_slot(ids@[i as int]));
        }
        let sorted = sort_reports(&g);
        assert(sorted@.len() == g@.len()) by {
            lemma_sort_len(g@);
        }
        push_field_alarms(&mut alarms, &calc(&sorted, ReportCountField::Req), 5, config.countdown_days);
        push_field_alarms(&mut alarms, &calc(&sorted, ReportCountField::Fil), 6, config.countdown_days);
        push_field_alarms(&mut alarms, &calc(&sorted, ReportCountField::Cli), 7, config.countdown_days);
        push_field_alarms(&mut alarms, &calc(&sorted, ReportCountField::Imp), 8, config.countdown_days);
        i = i + 1;
    }
    assert(ids@.take(ids@.len() as int) =~= ids@);
    proof {
        lemma_alarm_points_of(alarms@, reports@, *config);
    }
    alarms
}

proof fn lemma_alarm_points_of(alarms: Seq<Alarm>, reports: Seq<Report>, config: ReportMonitorConfig)
    requires
        reports.len() <= u32::MAX,
        alarms.map_values(|a: Alarm| report_alarm_view(a)) == report_alarms(reports, config),
    ensures
        forall|k: int| 0 <= k < alarms.len() ==> fell_as_pointed(report_alarm_view(#[trigger] alarms[k]), config.countdown_days),
{
    lemma_report_alarm_points(reports, config);
    assert forall|k: int| 0 <= k < alarms.len() implies fell_as_pointed(report_alarm_view(#[trigger] alarms[k]), config.countdown_days) by {
        assert(alarms.map_values(|a: Alarm| report_alarm_view(a))[k] == report_alarm_view(alarms[k]));
        assert(report_alarms(reports, config)[k] == report_alarm_view(alarms[k]));
    }
}

proof fn lemma_insert_len(s: Seq<Report>, x: Report)
    ensures
        insert_by_date(s, x).len() == s.len() + 1,
    decreases s.len(),
{
    if s.len() > 0 && s.last().date > x.date {
        lemma_insert_len(s.drop_last(), x);
    }
}

proof fn lemma_sort_len(s: Seq<Report>)
    ensures
        sort_by_date(s).len() == s.len(),
    decreases s.len(),
{
    if s.len() > 0 {
        lemma_sort_len(s.drop_last());
        lemma_insert_len(sort_by_date(s.drop_last()), s.last());
    }
}


/// Whether the reports are in order of date.
pub open spec fn dates_ordered(s: Seq<Report>) -> bool {
    forall|i: int, j: int| 0 <= i < j < s.len() ==> s[i].date <= s[j].date
}

proof fn lemma_insert_by_date(s: Seq<Report>, x: Report)
    requires
        dates_ordered(s),
    ensures
        dates_ordered(insert_by_date(s, x)),
        insert_by_date(s, x).to_multiset() =~= s.to_multiset().insert(x),
        forall|i: int| 0 <= i < insert_by_date(s, x).len() ==> #[trigger] insert_by_date(s, x)[i] == x
            || s.contains(insert_by_date(s, x)[i]),
    decreases s.len(),
{
    broadcast use vstd::seq_lib::group_to_multiset_ensures;
    lemma_insert_len(s, x);
    if s.len() == 0 {
        assert(seq![x] =~= Seq::<Report>::empty().push(x));
    } else if s.last().date <= x.date {
        assert forall|i: int| 0 <= i < s.len() - 1 + 1 implies #[trigger] s.push(x)[i] == x || s.contains(s.push(x)[i]) by {
            if i < s.len() {
                assert(s.push(x)[i] == s[i]);
            }
        }
    } else {
        let d = s.drop_last();
        assert(dates_ordered(d));
        lemma_insert_by_date(d, x);
        let r = insert_by_date(d, x);
        assert(s =~= d.push(s.last()));
        assert forall|i: int, j: int| 0 <= i < j < r.push(s.last()).len() implies r.push(s.last())[i].date <= r.push(s.last())[j].date by {
            if j == r.len() {
                let e = r[i];
                if e != x {
                    assert(d.contains(e));
                    let k = choose|k: int| 0 <= k < d.len() && d[k] == e;
                    assert(s[k] == e);
                }
            }
        }
        assert forall|i: int| 0 <= i < r.push(s.last()).len() implies #[trigger] r.push(s.last())[i] == x
            || s.contains(r.push(s.last())[i]) by {
            if i < r.len() {
                let e = r[i];
                if e != x {
                    let k = choose|k: int| 0 <= k < d.len() && d[k] == e;
                    assert(s[k] == e);
                }
            } else {
                assert(s[s.len() - 1] == s.last());
            }
        }
    }
}

/// Sorting keeps every report, as often as it occurs, and puts them in
/// order of date.
pub proof fn lemma_sort_by_date(s: Seq<Report>)
    ensures
        dates_ordered(sort_by_date(s)),
        sort_by_date(s).to_multiset() =~= s.to_multiset(),
    decreases s.len(),
{
    broadcast use vstd::seq_lib::group_to_multiset_ensures;
    if s.len() > 0 {
        lemma_sort_by_date(s.drop_last());
        lemma_insert_by_date(sort_by_date(s.drop_last()), s.last());
        assert(s =~= s.drop_last().push(s.last()));
    }
}

/// Whether a run is at least as long as its number of falls, is not empty,
/// and holds reports of `src` only.
pub open spec fn run_from(e: (u32, Seq<Report>), src: Seq<Report>) -> bool {
    &&& e.1.len() >= e.0
    &&& e.1.len() >= 1
    &&& forall|j: int| 0 <= j < e.1.len() ==> src.contains(#[trigger] e.1[j])
}

proof fn lemma_assoc_insert_elems<K, V>(m: Seq<(K, V)>, k: K, v: V)
    ensures
        forall|i: int| 0 <= i < assoc_insert(m, k, v).len() ==> #[trigger] assoc_insert(m, k, v)[i] == (k, v)
            || (i < m.len() && assoc_insert(m, k, v)[i] == m[i]),
{
    lemma_key_index(m, k);
}

proof fn lemma_calc_state_runs(reports: Seq<Report>, field: ReportCountField, k: int)
    requires
        k < reports.len(),
        reports.len() <= u32::MAX,
    ensures
        forall|i: int| 0 <= i < calc_state(reports, field, k).0.len() ==> run_from(
            #[trigger] calc_state(reports, field, k).0[i],
            reports,
        ),
        calc_state(reports, field, k).2.len() >= calc_state(reports, field, k).1,
        forall|j: int| 0 <= j < calc_state(reports, field, k).2.len() ==> reports.contains(
            #[trigger] calc_state(reports, field, k).2[j],
        ),
    decreases k,
{
    if k > 0 {
        lemma_calc_state_runs(reports, field, k - 1);
        lemma_calc_count_bound(reports, field, k - 1);
        let st = calc_state(reports, field, k - 1);
        let cur = reports[k - 1];
        let next = reports[k];
        let run = st.2.push(cur);
        assert(reports.contains(cur));
        assert forall|j: int| 0 <= j < run.len() implies reports.contains(#[trigger] run[j]) by {
            if j < st.2.len() {
                assert(run[j] == st.2[j]);
            }
        }
        if falls(cur, next, field) {
        } else if rises(cur, next, field) {
            lemma_assoc_insert_elems(st.0, st.1, run);
            assert(run_from((st.1, run), reports));
            let m = assoc_insert(st.0, st.1, run);
            assert forall|i: int| 0 <= i < m.len() implies run_from(#[trigger] m[i], reports) by {
                if m[i] != (st.1, run) {
                    assert(run_from(st.0[i], reports));
                }
            }
        } else {
        }
    }
}

/// Whether an alarm of the report check is of a point from 5 to 8, for a
/// run longer than `countdown_days` of reports of `src`.
pub open spec fn alarm_from(a: (u32, Seq<Report>), src: Seq<Report>, countdown_days: u32) -> bool {
    &&& 5 <= a.0 <= 8
    &&& a.1.len() > countdown_days
    &&& forall|j: int| 0 <= j < a.1.len() ==> src.contains(#[trigger] a.1[j])
}

proof fn lemma_field_alarms(runs: Seq<(u32, Seq<Report>)>, point: u32, countdown_days: u32, src: Seq<Report>)
    requires
        5 <= point <= 8,
        forall|i: int| 0 <= i < runs.len() ==> run_from(#[trigger] runs[i], src),
    ensures
        forall|k: int| 0 <= k < field_alarms(runs, point, countdown_days).len() ==> alarm_from(
            #[trigger] field_alarms(runs, point, countdown_days)[k],
            src,
            countdown_days,
        ),
{
    broadcast use vstd::seq_lib::group_filter_ensures;
    let f = runs.filter(over_countdown(countdown_days));
    assert forall|k: int| 0 <= k < field_alarms(runs, point, countdown_days).len() implies alarm_from(
        #[trigger] field_alarms(runs, point, countdown_days)[k],
        src,
        countdown_days,
    ) by {
        assert(field_alarms(runs, point, countdown_days)[k] == (point, f[k].1));
        assert(over_countdown(countdown_days)(f[k]));
        assert(f.contains(f[k]));
        runs.lemma_filter_contains_rev(over_countdown(countdown_days), f[k]);
        let i = choose|i: int| 0 <= i < runs.len() && runs[i] == f[k];
        assert(run_from(runs[i], src));
    }
}

proof fn lemma_calc_alarms(sorted: Seq<Report>, field: ReportCountField, point: u32, countdown_days: u32)
    requires
        5 <= point <= 8,
        sorted.len() <= u32::MAX,
    ensures
        forall|k: int| 0 <= k < field_alarms(calc_spec(sorted, field), point, countdown_days).len() ==> alarm_from(
            #[trigger] field_alarms(calc_spec(sorted, field), point, countdown_days)[k],
            sorted,
            countdown_days,
        ),
{
    lemma_calc_state_runs(sorted, field, sorted.len() - 1);
    lemma_field_alarms(calc_spec(sorted, field), point, countdown_days, sorted);
}

proof fn lemma_slot_alarms(sorted: Seq<Report>, countdown_days: u32)
    requires
        sorted.len() <= u32::MAX,
    ensures
        forall|k: int| 0 <= k < slot_alarms(sorted, countdown_days).len() ==> alarm_from(
            #[trigger] slot_alarms(sorted, countdown_days)[k],
            sorted,
            countdown_days,
        ),
{
    let a = field_alarms(calc_spec(sorted, ReportCountField::Req), 5, countdown_days);
    let b = field_alarms(calc_spec(sorted, ReportCountField::Fil), 6, countdown_days);
    let c = field_alarms(calc_spec(sorted, ReportCountField::Cli), 7, countdown_days);
    let d = field_alarms(calc_spec(sorted, ReportCountField::Imp), 8, countdown_days);
    lemma_calc_alarms(sorted, ReportCountField::Req, 5, countdown_days);
    lemma_calc_alarms(sorted, ReportCountField::Fil, 6, countdown_days);
    lemma_calc_alarms(sorted, ReportCountField::Cli, 7, countdown_days);
    lemma_calc_alarms(sorted, ReportCountField::Imp, 8, countdown_days);
    let all = a + b + c + d;
    assert forall|k: int| 0 <= k < all.len() implies alarm_from(#[trigger] all[k], sorted, countdown_days) by {
        if k < a.len() {
            assert(all[k] == a[k]);
        } else if k < a.len() + b.len() {
            assert(all[k] == b[k - a.len()]);
        } else if k < a.len() + b.len() + c.len() {
            assert(all[k] == c[k - a.len() - b.len()]);
        } else {
            assert(all[k] == d[k - a.len() - b.len() - c.len()]);
        }
    }
}

/// Whether an alarm of the report check is of a point from 5 to 8, for a
/// run longer than `countdown_days` of reports of `src`, all of one slot.
pub open spec fn slot_alarm_from(a: (u32, Seq<Report>), src: Seq<Report>, countdown_days: u32) -> bool {
    &&& alarm_from(a, src, countdown_days)
    &&& forall|j: int| 0 <= j < a.1.len() ==> (#[trigger] a.1[j]).slot_id == a.1[0].slot_id
}

proof fn lemma_slots_alarms(kept: Seq<Report>, ids: Seq<i32>, exclude_days: u32, countdown_days: u32)
    requires
        kept.len() <= u32::MAX,
    ensures
        forall|k: int| 0 <= k < slots_alarms(kept, ids, exclude_days, countdown_days).len() ==> slot_alarm_from(
            #[trigger] slots_alarms(kept, ids, exclude_days, countdown_days)[k],
            kept,
            countdown_days,
        ),
    decreases ids.len(),
{
    broadcast use vstd::seq_lib::group_filter_ensures;
    broadcast use vstd::seq_lib::group_to_multiset_ensures;
    if ids.len() > 0 {
        let id = ids.last();
        let g = reports_of(kept, id);
        let rest = slots_alarms(kept, ids.drop_last(), exclude_days, countdown_days);
        lemma_slots_alarms(kept, ids.drop_last(), exclude_days, countdown_days);
        if g.len() >= exclude_days {
            let sorted = sort_by_date(g);
            lemma_sort_len(g);
            lemma_sort_by_date(g);
            lemma_slot_alarms(sorted, countdown_days);
            let part = slot_alarms(sorted, countdown_days);
            assert forall|e: Report| sorted.contains(e) implies kept.contains(e) && e.slot_id == id by {
                assert(sorted.to_multiset().count(e) > 0);
                assert(g.contains(e));
                let i = choose|i: int| 0 <= i < g.len() && g[i] == e;
                assert(in_slot(id)(g[i]));
                kept.lemma_filter_contains_rev(in_slot(id), e);
            }
            let all = rest + part;
            assert forall|k: int| 0 <= k < all.len() implies slot_alarm_from(#[trigger] all[k], kept, countdown_days) by {
                if k < rest.len() {
                    assert(all[k] == rest[k]);
                } else {
                    let a = part[k - rest.len()];
                    assert(all[k] == a);
                    assert(alarm_from(a, sorted, countdown_days));
                    assert forall|j: int| 0 <= j < a.1.len() implies kept.contains(#[trigger] a.1[j]) && a.1[j].slot_id == id by {
                        assert(sorted.contains(a.1[j]));
                    }
                    assert(sorted.contains(a.1[0]));
                }
            }
        }
    }
}

/// Every alarm of the report check is for a run of reports that were given,
/// all of one slot, each on a weekday with at least `fill_count_min` fills;
/// the run is longer than `countdown_days` and the point is 5 (requests),
/// 6 (fills), 7 (clicks) or 8 (impressions).
pub proof fn lemma_report_alarms_sound(reports: Seq<Report>, config: ReportMonitorConfig)
    requires
        reports.len() <= u32::MAX,
    ensures
        forall|k: int| 0 <= k < report_alarms(reports, config).len() ==> {
            let a = #[trigger] report_alarms(reports, config)[k];
            &&& 5 <= a.0 <= 8
            &&& a.1.len() > config.countdown_days
            &&& forall|j: int| 0 <= j < a.1.len() ==> {
                &&& reports.contains(#[trigger] a.1[j])
                &&& kept(a.1[j], config.fill_count_min)
                &&& a.1[j].slot_id == a.1[0].slot_id
            }
        },
{
    broadcast use vstd::seq_lib::group_filter_ensures;
    let kept_list = kept_reports(reports, config.fill_count_min);
    lemma_slots_alarms(kept_list, slot_ids_of(kept_list), config.exclude_days, config.countdown_days);
    assert forall|e: Report| kept_list.contains(e) implies reports.contains(e) && kept(e, config.fill_count_min) by {
        let i = choose|i: int| 0 <= i < kept_list.len() && kept_list[i] == e;
        assert(is_kept(config.fill_count_min)(kept_list[i]));
        reports.lemma_filter_contains_rev(is_kept(config.fill_count_min), e);
    }
    assert forall|k: int| 0 <= k < report_alarms(reports, config).len() implies {
        let a = #[trigger] report_alarms(reports, config)[k];
        &&& 5 <= a.0 <= 8
        &&& a.1.len() > config.countdown_days
        &&& forall|j: int| 0 <= j < a.1.len() ==> {
            &&& reports.contains(#[trigger] a.1[j])
            &&& kept(a.1[j], config.fill_count_min)
            &&& a.1[j].slot_id == a.1[0].slot_id
        }
    } by {
        let a = report_alarms(reports, config)[k];
        assert(slot_alarm_from(a, kept_list, config.countdown_days));
        assert forall|j: int| 0 <= j < a.1.len() implies {
            &&& reports.contains(#[trigger] a.1[j])
            &&& kept(a.1[j], config.fill_count_min)
            &&& a.1[j].slot_id == a.1[0].slot_id
        } by {
            assert(kept_list.contains(a.1[j]));
        }
    }
}

/// How many times the count `field` fell from one report of `s` to the next.
pub open spec fn falls_within(s: Seq<Report>, field: ReportCountField) -> nat
    decreases s.len(),
{
    if s.len() < 2 {
        0
    } else {
        falls_within(s.drop_last(), field) + if falls(s[s.len() - 2], s.last(), field) { 1nat } else { 0nat }
    }
}

proof fn lemma_calc_state_falls(reports: Seq<Report>, field: ReportCountField, k: int)
    requires
        0 <= k < reports.len(),
        reports.len() <= u32::MAX,
    ensures
        calc_state(reports, field, k).2.len() <= k,
        calc_state(reports, field, k).2 == reports.subrange(k - calc_state(reports, field, k).2.len(), k),
        calc_state(reports, field, k).1 == falls_within(
            reports.subrange(k - calc_state(reports, field, k).2.len(), k + 1),
            field,
        ),
        forall|i: int| 0 <= i < calc_state(reports, field, k).0.len()
            ==> falls_within((#[trigger] calc_state(reports, field, k).0[i]).1, field) == calc_state(reports, field, k).0[i].0,
    decreases k,
{
    if k == 0 {
        assert(reports.subrange(0, 0) =~= Seq::<Report>::empty());
    } else {
        lemma_calc_state_falls(reports, field, k - 1);
        lemma_calc_count_bound(reports, field, k - 1);
        let st = calc_state(reports, field, k - 1);
        let cur = reports[k - 1];
        let next = reports[k];
        let run = st.2.push(cur);
        let s = k - 1 - st.2.len();
        assert(run =~= reports.subrange(s, k));
        assert(falls_within(run, field) == st.1);
        let whole = reports.subrange(s, k + 1);
        assert(whole.drop_last() =~= run);
        assert(whole[whole.len() - 2] == cur);
        assert(whole.last() == next);
        if falls(cur, next, field) {
            assert(calc_state(reports, field, k) == (st.0, (st.1 + 1) as u32, run));
        } else if rises(cur, next, field) {
            assert(reports.subrange(k, k) =~= Seq::<Report>::empty());
            lemma_assoc_insert_elems(st.0, st.1, run);
            let m = assoc_insert(st.0, st.1, run);
            assert forall|i: int| 0 <= i < m.len() implies falls_within((#[trigger] m[i]).1, field) == m[i].0 by {
                if m[i] != (st.1, run) {
                    assert(m[i] == st.0[i]);
                }
            }
        } else {
        }
    }
}

/// Whether the point of an alarm names a count that fell more than
/// `countdown_days` times within its run: requests for 5, fills for 6,
/// clicks for 7, impressions for 8.
pub open spec fn fell_as_pointed(a: (u32, Seq<Report>), countdown_days: u32) -> bool {
    &&& a.0 == 5 ==> falls_within(a.1, ReportCountField::Req) > countdown_days
    &&& a.0 == 6 ==> falls_within(a.1, ReportCountField::Fil) > countdown_days
    &&& a.0 == 7 ==> falls_within(a.1, ReportCountField::Cli) > countdown_days
    &&& a.0 == 8 ==> falls_within(a.1, ReportCountField::Imp) > countdown_days
}

proof fn lemma_calc_falls(sorted: Seq<Report>, field: ReportCountField, point: u32, countdown_days: u32)
    requires
        sorted.len() <= u32::MAX,
    ensures
        forall|k: int| 0 <= k < field_alarms(calc_spec(sorted, field), point, countdown_days).len() ==> {
            let a = #[trigger] field_alarms(calc_spec(sorted, field), point, countdown_days)[k];
            a.0 == point && falls_within(a.1, field) > countdown_days
        },
{
    broadcast use vstd::seq_lib::group_filter_ensures;
    let runs = calc_spec(sorted, field);
    if sorted.len() > 0 {
        lemma_calc_state_falls(sorted, field, sorted.len() - 1);
    }
    let f = runs.filter(over_countdown(countdown_days));
    assert forall|k: int| 0 <= k < field_alarms(runs, point, countdown_days).len() implies {
        let a = #[trigger] field_alarms(runs, point, countdown_days)[k];
        a.0 == point && falls_within(a.1, field) > countdown_days
    } by {
        assert(field_alarms(runs, point, countdown_days)[k] == (point, f[k].1));
        assert(over_countdown(countdown_days)(f[k]));
        assert(f.contains(f[k]));
        runs.lemma_filter_contains_rev(over_countdown(countdown_days), f[k]);
        let i = choose|i: int| 0 <= i < runs.len() && runs[i] == f[k];
        assert(falls_within(runs[i].1, field) == runs[i].0);
    }
}

proof fn lemma_slot_alarms_fell(sorted: Seq<Report>, countdown_days: u32)
    requires
        sorted.len() <= u32::MAX,
    ensures
        forall|k: int| 0 <= k < slot_alarms(sorted, countdown_days).len()
            ==> fell_as_pointed(#[trigger] slot_alarms(sorted, countdown_days)[k], countdown_days),
{
    let a = field_alarms(calc_spec(sorted, ReportCountField::Req), 5, countdown_days);
    let b = field_alarms(calc_spec(sorted, ReportCountField::Fil), 6, countdown_days);
    let c = field_alarms(calc_spec(sorted, ReportCountField::Cli), 7, countdown_days);
    let d = field_alarms(calc_spec(sorted, ReportCountField::Imp), 8, countdown_days);
    lemma_calc_falls(sorted, ReportCountField::Req, 5, countdown_days);
    lemma_calc_falls(sorted, ReportCountField::Fil, 6, countdown_days);
    lemma_calc_falls(sorted, ReportCountField::Cli, 7, countdown_days);
    lemma_calc_falls(sorted, ReportCountField::Imp, 8, countdown_days);
    let all = a + b + c + d;
    assert forall|k: int| 0 <= k < all.len() implies fell_as_pointed(#[trigger] all[k], countdown_days) by {
        if k < a.len() {
            assert(all[k] == a[k]);
        } else if k < a.len() + b.len() {
            assert(all[k] == b[k - a.len()]);
        } else if k < a.len() + b.len() + c.len() {
            assert(all[k] == c[k - a.len() - b.len()]);
        } else {
            assert(all[k] == d[k - a.len() - b.len() - c.len()]);
        }
    }
}

proof fn lemma_slots_alarms_fell(kept: Seq<Report>, ids: Seq<i32>, exclude_days: u32, countdown_days: u32)
    requires
        kept.len() <= u32::MAX,
    ensures
        forall|k: int| 0 <= k < slots_alarms(kept, ids, exclude_days, countdown_days).len()
            ==> fell_as_pointed(#[trigger] slots_alarms(kept, ids, exclude_days, countdown_days)[k], countdown_days),
    decreases ids.len(),
{
    if ids.len() > 0 {
        let id = ids.last();
        let g = reports_of(kept, id);
        let rest = slots_alarms(kept, ids.drop_last(), exclude_days, countdown_days);
        lemma_slots_alarms_fell(kept, ids.drop_last(), exclude_days, countdown_days);
        if g.len() >= exclude_days {
            let sorted = sort_by_date(g);
            kept.lemma_filter_len(in_slot(id));
            lemma_sort_len(g);
            lemma_slot_alarms_fell(sorted, countdown_days);
            let part = slot_alarms(sorted, countdown_days);
            let all = rest + part;
            assert forall|k: int| 0 <= k < all.len() implies fell_as_pointed(#[trigger] all[k], countdown_days) by {
                if k < rest.len() {
                    assert(all[k] == rest[k]);
                } else {
                    assert(all[k] == part[k - rest.len()]);
                }
            }
        }
    }
}

/// An alarm's point names the count that fell: every alarm of the report
/// check of point 5 is for a run of reports whose requests fell from one
/// report to the next more than `countdown_days` times, of point 6 whose
/// fills did, of point 7 whose clicks did, and of point 8 whose impressions
/// did.
pub proof fn lemma_report_alarm_points(reports: Seq<Report>, config: ReportMonitorConfig)
    requires
        reports.len() <= u32::MAX,
    ensures
        forall|k: int| 0 <= k < report_alarms(reports, config).len() ==> {
            let a = #[trigger] report_alarms(reports, config)[k];
            &&& a.0 == 5 ==> falls_within(a.1, ReportCountField::Req) > config.countdown_days
            &&& a.0 == 6 ==> falls_within(a.1, ReportCountField::Fil) > config.countdown_days
            &&& a.0 == 7 ==> falls_within(a.1, ReportCountField::Cli) > config.countdown_days
            &&& a.0 == 8 ==> falls_within(a.1, ReportCountField::Imp) > config.countdown_days
        },
{
    let kept_list = kept_reports(reports, config.fill_count_min);
    reports.lemma_filter_len(is_kept(config.fill_count_min));
    lemma_slots_alarms_fell(kept_list, slot_ids_of(kept_list), config.exclude_days, config.countdown_days);
    assert forall|k: int| 0 <= k < report_alarms(reports, config).len() implies {
        let a = #[trigger] report_alarms(reports, config)[k];
        &&& a.0 == 5 ==> falls_within(a.1, ReportCountField::Req) > config.countdown_days
        &&& a.0 == 6 ==> falls_within(a.1, ReportCountField::Fil) > config.countdown_days
        &&& a.0 == 7 ==> falls_within(a.1, ReportCountField::Cli) > config.countdown_days
        &&& a.0 == 8 ==> falls_within(a.1, ReportCountField::Imp) > config.countdown_days
    } by {
        assert(fell_as_pointed(report_alarms(reports, config)[k], config.countdown_days));
    }
}

/// The report check.
pub struct ReportMonitor {}

impl ReportMonitor {
    /// The check's name.
    pub fn name(&self) -> (s: &'static str)
        ensures
            s@ == "Report"@,
    {
        proof {
            reveal_strlit("Report");
        }
        "Report"
    }
}

} // verus!
