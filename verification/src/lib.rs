//! Ad-serving rules: the monitor's checks on plans, strategies and reports,
//! and the SSP server's matching, weighting and DSP request mapping.
pub mod monitor;
pub mod server;
pub mod text;
