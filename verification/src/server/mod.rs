//! The SSP server: request model, strategy matching, weighted choice and
//! the mapping of requests to DSPs.
pub mod error;
pub mod enums;
pub mod json;
pub mod weight;
pub mod strategy;
pub mod ssp;
pub mod media;
pub mod slot;
pub mod dsp_slot;
pub mod dsp;
pub mod config;
pub mod admin;
