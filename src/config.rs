//! Settings of the controller, as read from its configuration file.

use vstd::prelude::*;

verus! {

/// Settings of the inverter and of the battery policy.
pub struct InverterConfig {
    /// Socket address or serial device of the inverter.
    pub device: String,
    /// Bus unit id of the inverter.
    pub id: u8,
    /// Lowest state of charge to keep, in hundredths of a percent.
    pub min_soc: u32,
    /// State of charge to keep when no outage data is at hand, in hundredths
    /// of a percent.
    pub fallback_soc: u32,
    /// Lowest household load, in watts.
    pub min_discharge_power: u32,
    /// Highest household load, in watts.
    pub max_discharge_power: u32,
    /// Cap on the power that charges the battery, in watts.
    pub charge_power: Option<u32>,
    /// When set, nothing is written to the inverter.
    pub dry_run: bool,
}

/// Settings of the CT-coil trickle controller, in watts.
#[derive(Clone, Copy, Debug)]
pub struct CoilConfig {
    /// Net export above which a coil reading is taken for a misreading.
    pub power_threshold: i32,
    /// Trickle to add to the net export.
    pub trickle: i32,
}

/// Bus unit id used when the configuration names none.
pub fn id_default() -> (r: u8)
    ensures
        r == 1,
{
    1
}

/// Writes go to the inverter unless the configuration says otherwise.
pub fn dry_run_default() -> (r: bool)
    ensures
        !r,
{
    false
}

/// Settings of the outage-forecast service.
pub struct EspConfig {
    /// API key.
    pub key: String,
    /// Area whose schedule is followed.
    pub area: String,
    /// Seconds between polls.
    pub interval: u64,
    /// Seconds after which a forecast is no longer used.
    pub timeout: u64,
}

/// Poll every 40 minutes unless configured otherwise.
pub fn interval_default() -> (r: u64)
    ensures
        r == 40 * 60,
{
    40 * 60
}

/// Forecasts older than 4 hours are not used unless configured otherwise.
pub fn timeout_default() -> (r: u64)
    ensures
        r == 4 * 60 * 60,
{
    4 * 60 * 60
}

/// Settings of the time-series monitoring sink.
pub struct Influxdb2Config {
    pub host: String,
    pub org: String,
    pub token: String,
    pub bucket: String,
}

/// Monitoring server used when the configuration names none.
pub fn default_host() -> (r: String)
    ensures
        r@ == "http://localhost:8086"@,
{
    "http://localhost:8086".to_owned()
}

/// The whole configuration.
pub struct Config {
    pub inverter: InverterConfig,
    pub esp: EspConfig,
    pub influxdb2: Option<Influxdb2Config>,
    pub coil: Option<CoilConfig>,
}

} // verus!
