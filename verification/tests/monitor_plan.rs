use advert::monitor::alarm::AlarmDetails;
use advert::monitor::dsp::{group, DspMonitor};
use advert::monitor::model::{BidType, Status};
use advert::monitor::plan::{AdConfig, AdConfigRule, AdConfigVec, Plan, MICROS_PER_SECOND};

fn rule(key: &str, values: &[&str]) -> AdConfigRule {
    AdConfigRule { key: key.to_string(), values: values.iter().map(|v| v.to_string()).collect() }
}

fn plan(id: i32, rules: Vec<AdConfigRule>, weekday: &str, hour: &str, begin: Option<i64>, end: Option<i64>) -> Plan {
    Plan {
        id,
        status: Status::Valid,
        created_at: 0,
        updated_at: 0,
        name: format!("plan{}", id),
        user_id: 1,
        budget: 100,
        bid_type: BidType::CPM,
        bid_price: 10,
        weekday: weekday.to_string(),
        hour: hour.to_string(),
        adconfig: AdConfigVec(vec![AdConfig { ideas: vec![1], rules }]),
        begin_time: begin,
        end_time: end,
        closed_time: None,
        closed_reason: None,
    }
}

const S: i64 = MICROS_PER_SECOND;

#[test]
fn rule_strings_join_each_new_onto_each_old() {
    let config = AdConfig {
        ideas: vec![],
        rules: vec![rule("slotid", &["1", "2"]), rule("os", &["\"ios\""]), rule("city", &["5", "6"])],
    };
    assert_eq!(
        config.gen_rules(),
        vec![
            "slotid:1-os:\"ios\"-city:5",
            "slotid:2-os:\"ios\"-city:5",
            "slotid:1-os:\"ios\"-city:6",
            "slotid:2-os:\"ios\"-city:6",
        ]
    );
    let v = AdConfigVec(vec![
        AdConfig { ideas: vec![], rules: vec![rule("a", &["1"])] },
        AdConfig { ideas: vec![], rules: vec![] },
        AdConfig { ideas: vec![], rules: vec![rule("b", &["2", "3"])] },
    ]);
    assert_eq!(v.gen_rules(), vec!["a:1", "b:2", "b:3"]);
    assert!(AdConfigVec::has_slot(&vec!["x-slotid:3".to_string()]));
    assert!(!AdConfigVec::has_slot(&vec!["slot:3".to_string()]));
    assert_eq!(
        AdConfig::gen_rules_new(&vec!["a".to_string(), "b".to_string()], &vec!["x".to_string()]),
        vec!["a-x", "b-x"]
    );
}

#[test]
fn rule_contains_and_tags() {
    let r = rule("slotid", &["1", "\"2\""]);
    assert!(r.contains("slotid", "1"));
    assert!(r.contains("slotid", "\"2\""));
    assert!(!r.contains("slotid", "2"));
    assert!(!r.contains("os", "1"));
    assert!(r.tags().is_empty());
    let t = rule("tag", &["\"x\"", "7"]);
    assert!(t.contains("anything", "at all"));
    assert_eq!(t.tags(), vec!["\"x\"", "7"]);
    let config = AdConfig { ideas: vec![], rules: vec![r, t, rule("tag", &["1"])] };
    let tags = config.tag_rules();
    assert_eq!(tags.len(), 2);
    assert_eq!(tags[1].values, vec!["1"]);
}

#[test]
fn weekday_and_hour_overlap() {
    let a = plan(1, vec![], "1,2,3", "8,9", None, None);
    let b = plan(2, vec![], "3,4", "10", None, None);
    let c = plan(3, vec![], "5", "9", None, None);
    assert!(a.weekday_overlap(&b));
    assert!(!a.hour_overlap(&b));
    assert!(!a.weekday_overlap(&c));
    assert!(a.hour_overlap(&c));
    assert_eq!(a.weekday_overlap(&b), b.weekday_overlap(&a));
}

#[test]
fn window_overlap_longer_than_allowed() {
    let now = 1_000 * S;
    let a = plan(1, vec![], "1", "1", Some(0), Some(100 * S));
    let b = plan(2, vec![], "1", "1", Some(50 * S), Some(200 * S));
    assert!(a.beginend_time_overlap_at(&b, 49, now));
    assert!(!a.beginend_time_overlap_at(&b, 50, now));
    assert!(b.beginend_time_overlap_at(&a, 49, now));
    assert!(a.time_overlap_at(&b, 10, now));
    // a missing end counts as now
    let open = plan(3, vec![], "1", "1", Some(900 * S), None);
    let late = plan(4, vec![], "1", "1", Some(0), Some(2_000 * S));
    assert!(open.beginend_time_overlap_at(&late, 99, now));
    assert!(!open.beginend_time_overlap_at(&late, 100, now));
    // weekday or hour apart: no overlap
    let other_day = plan(5, vec![], "2", "1", Some(0), Some(100 * S));
    assert!(!a.time_overlap_at(&other_day, 10, now));
}

#[test]
fn dsp_check_pairs_plans_under_a_slot_rule() {
    let now = 1_000 * S;
    let plans = vec![
        plan(10, vec![rule("slotid", &["1"])], "1,2", "10", Some(0), Some(100 * S)),
        plan(11, vec![rule("slotid", &["2"])], "1", "10", Some(0), Some(100 * S)),
        plan(12, vec![rule("slotid", &["1"])], "2", "10,11", Some(50 * S), Some(200 * S)),
        // no slot rule: not checked
        plan(13, vec![rule("os", &["1"])], "1", "10", Some(0), Some(100 * S)),
        plan(14, vec![rule("os", &["1"])], "1", "10", Some(0), Some(100 * S)),
    ];
    let (keys, groups) = group(&plans);
    assert_eq!(keys, vec!["slotid:1", "slotid:2"]);
    assert_eq!(groups, vec![vec![0, 2], vec![1]]);

    let alarms = DspMonitor::process_plans_at(&plans, 10, now);
    assert_eq!(alarms.len(), 1);
    assert_eq!(alarms[0].point, 4);
    match &alarms[0].details {
        AlarmDetails::PlanOverlap { rule, plans } => {
            assert_eq!(rule, "slotid:1");
            assert_eq!(plans.len(), 2);
            assert_eq!(plans[0].id, 10);
            assert_eq!(plans[1].id, 12);
        }
        AlarmDetails::Reports { .. } => panic!("not an overlap alarm"),
    }
    assert!(DspMonitor::process_plans_at(&plans, 60, now).is_empty());
    assert!(DspMonitor::process_plans_at(&vec![], 60, now).is_empty());
    assert_eq!(DspMonitor {}.name(), "DSP");
}

#[test]
fn dsp_check_with_the_clock() {
    // both windows lie far in the past and far in the future of any clock
    let plans = vec![
        plan(1, vec![rule("slotid", &["1"])], "1", "1", Some(i64::MIN / 4), Some(i64::MAX / 4)),
        plan(2, vec![rule("slotid", &["1"])], "1", "1", Some(i64::MIN / 4), Some(i64::MAX / 4)),
    ];
    assert_eq!(DspMonitor::process_plans(&plans, 10).len(), 1);
    assert!(plans[0].time_overlap(&plans[1], 10));
}

#[test]
fn every_overlapping_pair_of_a_rule_is_reported() {
    let now = 1_000 * S;
    let slot = || vec![rule("slotid", &["7"])];
    let plans = vec![
        plan(1, slot(), "1", "1", Some(0), Some(300 * S)),
        plan(2, slot(), "1", "1", Some(100 * S), Some(400 * S)),
        plan(3, slot(), "1", "1", Some(200 * S), Some(500 * S)),
        plan(4, slot(), "2", "1", Some(0), Some(500 * S)),
    ];
    let alarms = DspMonitor::process_plans_at(&plans, 50, now);
    let pairs: Vec<(i32, i32)> = alarms
        .iter()
        .map(|a| match &a.details {
            AlarmDetails::PlanOverlap { plans, .. } => (plans[0].id, plans[1].id),
            AlarmDetails::Reports { .. } => panic!("not an overlap alarm"),
        })
        .collect();
    assert_eq!(pairs, vec![(1, 2), (1, 3), (2, 3)]);
}
