//! The monitor: plan overlap, strategy and report checks that raise alarms.
pub mod error;
pub mod model;
pub mod plan;
pub mod strategy;
pub mod ssp;
pub mod alarm;
pub mod report;
pub mod config;
pub mod dsp;
pub mod supe;
