//! Alarms that the checks raise.
use vstd::prelude::*;
use super::plan::Plan;
use super::report::Report;

verus! {

/// What an alarm is about.
pub enum AlarmDetails {
    /// Two plans for the same placement whose delivery overlaps.
    PlanOverlap { rule: String, plans: Vec<Plan> },
    /// A run of daily reports whose count kept falling.
    Reports { report: Vec<Report> },
}

/// An alarm: the point (kind) of the check and its details.
pub struct Alarm {
    pub point: u32,
    pub details: AlarmDetails,
}

/// The point and reports of a report alarm (no reports for another kind).
pub open spec fn report_alarm_view(a: Alarm) -> (u32, Seq<Report>) {
    match a.details {
        AlarmDetails::Reports { report } => (a.point, report@),
        AlarmDetails::PlanOverlap { .. } => (a.point, Seq::empty()),
    }
}

} // verus!
