//! Records handed to the monitoring sink after each control cycle.

use vstd::prelude::*;

use crate::coil::AveragePower;

verus! {

/// One cycle of the state-of-charge controller.
#[derive(Clone, Debug)]
pub struct SocUpdate {
    /// Seconds since the UNIX epoch.
    pub time: i64,
    /// Lowest acceptable target, in hundredths of a percent.
    pub target_soc_low: u32,
    /// Highest acceptable target, in hundredths of a percent.
    pub target_soc_high: u32,
    /// Alarm threshold, in hundredths of a percent.
    pub alarm_soc: u32,
    /// State of charge read from the inverter, in hundredths of a percent.
    pub current_soc: u32,
    /// Solar power expected now, in watts.
    pub predicted_pv: u32,
    /// Whether the grid is off now.
    pub is_loadshedding: bool,
    /// Next instant at which the grid is expected to go off or come back.
    pub next_change: Option<i64>,
}

/// One cycle of the CT-coil controller.
#[derive(Clone, Debug)]
pub struct CoilUpdate {
    /// Seconds since the UNIX epoch.
    pub time: i64,
    /// Whether the inverter applies the trickle setting to the coil.
    pub active: bool,
    /// Mean of the trickle targets over the full window, if all are known.
    pub target: Option<AveragePower>,
    /// Trickle setting last written to the inverter.
    pub setting: Option<AveragePower>,
}

/// A sink that drops every record.
pub struct NullMonitor;

} // verus!
