//! The monitor's settings.
use vstd::prelude::*;

verus! {

/// The whole configuration.
pub struct Config {
    pub name: String,
    pub monitor: MonitorConfig,
}

/// The checks' settings and when they run.
pub struct MonitorConfig {
    pub cron: String,
    pub dsp: DspMonitorConfig,
    pub ssp: SspMonitorConfig,
    pub report: ReportMonitorConfig,
}

/// Settings of the SSP check.
pub struct SspMonitorConfig {
    pub open: bool,
    pub me_dsp_id: i32,
    pub dev_id_prefix: String,
    pub slot_ids: Vec<i32>,
    pub supe_url: String,
}

/// Settings of the DSP plan-overlap check; the overlap allowed is in seconds.
pub struct DspMonitorConfig {
    pub open: bool,
    pub allow_overlap_max: i64,
}

/// Settings of the report check.
pub struct ReportMonitorConfig {
    pub open: bool,
    pub slot_ids: Vec<u32>,
    pub window_days: u32,
    pub fill_count_min: u32,
    pub exclude_days: u32,
    pub countdown_days: u32,
}

} // verus!
