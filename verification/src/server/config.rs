//! The server's settings.
use vstd::prelude::*;

verus! {

/// The whole configuration.
pub struct Config {
    pub version: String,
    pub dsp: DspConfig,
}

/// The DSPs' settings; the timeout is in seconds.
pub struct DspConfig {
    pub timeout: u64,
    pub me_dsp: MeDspConfig,
    pub wan_hui_dsp: WanHuiDspConfig,
}

/// The own DSP's settings.
pub struct MeDspConfig {
    pub location: Location,
}

/// Where a service is.
pub struct Location {
    pub v1: String,
}

/// The WanHui DSP's settings.
pub struct WanHuiDspConfig {
    pub adspace_id: String,
    pub app_id: String,
    pub api_version: String,
    pub key: String,
    pub iv: String,
    pub location: String,
    pub user_id: u64,
}

} // verus!
