//! Battery state-of-charge control for a grid-tied solar inverter facing
//! scheduled grid outages.
//!
//! The library holds the decisions of the controller, in exact integer units:
//! - state of charge in hundredths of a percent (`10000` is full),
//! - power in watts,
//! - battery capacity in hundredths of a watt-hour,
//! - instants in seconds since the UNIX epoch.

pub mod coil;
pub mod config;
pub mod control;
pub mod inverter;
pub mod monitoring;
pub mod outage;
pub mod sunsynk;
