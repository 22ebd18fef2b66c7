//! Values read from an inverter.

use vstd::prelude::*;

verus! {

/// Battery information read live from the inverter.
#[derive(Clone, Debug)]
pub struct Info {
    /// Battery capacity, in hundredths of a watt-hour.
    pub capacity: u32,
    /// Largest power that charges the battery from the grid, in hundredths of
    /// a watt.
    pub charge_power: u32,
}

/// Readings of the current-transformer coil.
#[derive(Clone, Debug)]
pub struct CoilInfo {
    /// Power at the CT coil, in watts; positive for import from the grid.
    pub coil: i32,
    /// Power at the inverter, in watts; positive for import from the grid.
    pub inverter: i32,
    /// Whether the trickle setting applies to the coil.
    pub coil_active: bool,
}

} // verus!
