use advert::monitor::alarm::{Alarm, AlarmDetails};
use advert::monitor::config::ReportMonitorConfig;
use advert::monitor::report::{
    count_down, count_up, filter_reports, group, process_reports, slot_ids, sort_reports,
    weekend, Report, ReportCountField,
};

fn report(slot_id: i32, date: i32, req: i128) -> Report {
    Report { slot_id, date, req, fil: 20000, cli: 7, imp: 9 }
}

fn config(exclude_days: u32, countdown_days: u32) -> ReportMonitorConfig {
    ReportMonitorConfig {
        open: true,
        slot_ids: vec![1, 2],
        window_days: 30,
        fill_count_min: 10000,
        exclude_days,
        countdown_days,
    }
}

fn reports_of(a: &Alarm) -> Vec<Report> {
    match &a.details {
        AlarmDetails::Reports { report } => report.clone(),
        AlarmDetails::PlanOverlap { .. } => panic!("not a report alarm"),
    }
}

#[test]
fn weekend_days() {
    // day 1 (0001-01-01) is a Monday
    assert!(!weekend(1));
    assert!(!weekend(5));
    assert!(weekend(6));
    assert!(weekend(7));
    assert!(!weekend(8));
    assert!(weekend(0));
    assert!(weekend(-1));
    assert!(!weekend(-2));
    // 2024-06-01 is a Saturday: day 739_038
    assert!(weekend(739_038));
    assert!(!weekend(739_040));
}

#[test]
fn counts_fall_and_rise() {
    let a = report(1, 1, 10);
    let b = report(1, 2, 5);
    assert!(count_down(&a, &b, ReportCountField::Req));
    assert!(!count_up(&a, &b, ReportCountField::Req));
    assert!(count_up(&b, &a, ReportCountField::Req));
    assert!(!count_down(&a, &b, ReportCountField::Fil));
    assert!(!count_up(&a, &b, ReportCountField::Fil));
    assert_eq!(a.count(ReportCountField::Imp), 9);
}

#[test]
fn calc_records_runs_closed_by_a_rise() {
    let rs = vec![
        report(1, 1, 100),
        report(1, 2, 90),
        report(1, 3, 80),
        report(1, 4, 70),
        report(1, 5, 75),
        report(1, 6, 60),
    ];
    let map = advert::monitor::report::calc(&rs, ReportCountField::Req);
    // the run 100 > 90 > 80 > 70 closes at the rise to 75; the run from 75 is
    // still open at the end and is not recorded
    assert_eq!(map.len(), 1);
    assert_eq!(map[0].0, 3);
    assert_eq!(map[0].1, rs[0..4].to_vec());
}

#[test]
fn calc_keeps_one_run_per_number_of_falls() {
    let rs = vec![
        report(1, 1, 5),
        report(1, 2, 4),
        report(1, 3, 6),
        report(1, 4, 5),
        report(1, 5, 9),
    ];
    let map = advert::monitor::report::calc(&rs, ReportCountField::Req);
    // two runs with one fall each: the later one replaces the earlier
    assert_eq!(map.len(), 1);
    assert_eq!(map[0].0, 1);
    assert_eq!(map[0].1, vec![report(1, 3, 6), report(1, 4, 5)]);

    let flat = vec![report(1, 1, 5), report(1, 2, 5)];
    assert!(advert::monitor::report::calc(&flat, ReportCountField::Req).is_empty());
    let single = vec![report(1, 1, 5)];
    assert!(advert::monitor::report::calc(&single, ReportCountField::Req).is_empty());
}

#[test]
fn sort_reports_is_stable_by_date() {
    let rs = vec![report(1, 3, 1), report(2, 1, 2), report(3, 3, 3), report(4, 2, 4)];
    let sorted = sort_reports(&rs);
    let ids: Vec<i32> = sorted.iter().map(|r| r.slot_id).collect();
    assert_eq!(ids, vec![2, 4, 1, 3]);
    assert!(sort_reports(&vec![]).is_empty());
}

#[test]
fn filter_group_and_slot_ids() {
    let mut low = report(2, 2, 1);
    low.fil = 9999;
    let rs = vec![report(2, 1, 1), report(1, 6, 1), low, report(1, 3, 1), report(2, 4, 1)];
    let kept = filter_reports(&rs, 10000);
    assert_eq!(kept, vec![report(2, 1, 1), report(1, 3, 1), report(2, 4, 1)]);
    assert_eq!(slot_ids(&kept), vec![2, 1]);
    assert_eq!(group(&kept, 2), vec![report(2, 1, 1), report(2, 4, 1)]);
    assert!(group(&kept, 9).is_empty());
}

#[test]
fn process_reports_raises_alarm_for_long_fall() {
    let rs = vec![
        report(1, 5, 75),
        report(1, 4, 70),
        report(1, 3, 80),
        report(1, 2, 90),
        report(1, 1, 100),
        // a Saturday, left out
        report(1, 6, 1),
    ];
    let alarms = process_reports(rs, &config(3, 2));
    assert_eq!(alarms.len(), 1);
    assert_eq!(alarms[0].point, 5);
    let run = reports_of(&alarms[0]);
    let dates: Vec<i32> = run.iter().map(|r| r.date).collect();
    assert_eq!(dates, vec![1, 2, 3, 4]);
}

#[test]
fn process_reports_needs_more_falls_than_countdown_days() {
    let rs = vec![report(1, 1, 100), report(1, 2, 90), report(1, 3, 80), report(1, 4, 95)];
    assert_eq!(process_reports(rs.clone(), &config(3, 2)).len(), 0);
    let alarms = process_reports(rs, &config(3, 1));
    assert_eq!(alarms.len(), 1);
    assert_eq!(alarms[0].point, 5);
}

#[test]
fn process_reports_skips_slots_with_few_days() {
    let rs = vec![report(1, 1, 100), report(1, 2, 90), report(1, 3, 80), report(1, 4, 95)];
    assert_eq!(process_reports(rs, &config(5, 0)).len(), 0);
}

#[test]
fn process_reports_checks_every_count() {
    let mut rs = Vec::new();
    for (d, v) in [(1, 9i128), (2, 8), (3, 7), (4, 10)] {
        rs.push(Report { slot_id: 3, date: d, req: v, fil: 20000 + v, cli: v, imp: v });
    }
    let alarms = process_reports(rs, &config(1, 1));
    let points: Vec<u32> = alarms.iter().map(|a| a.point).collect();
    assert_eq!(points, vec![5, 6, 7, 8]);
}

#[test]
fn process_reports_of_nothing() {
    assert!(process_reports(vec![], &config(0, 0)).is_empty());
}

#[test]
fn alarms_hold_kept_reports_of_one_slot() {
    let mut rs = Vec::new();
    for (d, v) in [(1, 90i128), (2, 80), (3, 70), (4, 60), (5, 99)] {
        rs.push(report(1, d, v));
        rs.push(report(2, d, v));
    }
    // a weekend day and a day with too few fills, both left out
    rs.push(report(1, 6, 10));
    let mut low = report(2, 8, 1);
    low.fil = 3;
    rs.push(low);
    let alarms = process_reports(rs.clone(), &config(2, 2));
    assert_eq!(alarms.len(), 2);
    for a in alarms.iter() {
        let run = reports_of(a);
        assert!(run.len() > 2);
        assert!(run.iter().all(|r| r.slot_id == run[0].slot_id));
        assert!(run.iter().all(|r| rs.contains(r) && !weekend(r.date) && r.fil >= 10000));
        assert!((5..=8).contains(&a.point));
    }
    let slots: Vec<i32> = alarms.iter().map(|a| reports_of(a)[0].slot_id).collect();
    assert_eq!(slots, vec![1, 2]);
}
