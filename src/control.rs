//! Forecast of the battery level and the state-of-charge targets derived
//! from it.
//!
//! Energies are kept in units of 1/10000 of a watt-second, so that a state of
//! charge in hundredths of a percent of a capacity in watt-seconds is exact.

use vstd::arithmetic::div_mod::lemma_div_is_ordered;
use vstd::prelude::*;

use crate::config::InverterConfig;
use crate::inverter::Info;
use crate::monitoring::SocUpdate;
use crate::outage::{loadshedding_status, status_holds, Event, State};

verus! {

/// Length of one simulation step, in seconds.
pub const STEP_SECS: i64 = 60;

/// Number of steps in the simulated 24 hours.
pub const NUM_STEPS: usize = 1440;

/// Energy units (1/10000 W s) that a power of one watt delivers in one step.
pub const STEP_ENERGY_PER_WATT: i128 = 600000;

/// Energy units in one watt-second.
pub const ENERGY_PER_WATT_SECOND: i128 = 10000;

/// Full state of charge, in hundredths of a percent.
pub const FULL_SOC: u32 = 10000;

/// What to simulate while the grid is on and solar power falls short.
#[derive(Clone, Copy, Debug, PartialEq, Eq, Structural)]
pub enum SimMode {
    /// Power drains from the battery.
    Drain,
    /// The grid holds the battery level steady.
    Hold,
    /// The battery charges as fast as the configuration allows.
    Charge,
}

/// Running state of the simulation.
pub struct Sim {
    /// Battery energy relative to the level at the start.
    pub base: int,
    /// Lowest level that still lies within the usable depth below a level
    /// reached earlier.
    pub floor: int,
    /// Lowest level observed so far.
    pub worst: int,
    /// Instant of the lowest level observed so far.
    pub worst_time: int,
}

/// Battery capacity in watt-seconds.
pub open spec fn capacity_ws(info: Info) -> int {
    info.capacity * 36
}

/// Usable energy between a full battery and the configured minimum.
pub open spec fn usable_depth(config: InverterConfig, info: Info) -> int {
    capacity_ws(info) * (FULL_SOC - config.min_soc)
}

pub open spec fn max_int(a: int, b: int) -> int {
    if a >= b { a } else { b }
}

pub open spec fn min_int(a: int, b: int) -> int {
    if a <= b { a } else { b }
}

/// Record a level `wh` seen at instant `t`.
pub open spec fn observe(s: Sim, wh: int, t: int) -> Sim {
    if wh < s.worst {
        Sim { worst: wh, worst_time: t, ..s }
    } else {
        s
    }
}

/// Observe, for each of the first `n` events that holds the instant `t`, the
/// level left at its end if the household draws the highest load throughout.
pub open spec fn scan_outages(
    events: Seq<Event>,
    n: nat,
    max_discharge: int,
    t: int,
    s: Sim,
) -> Sim
    decreases n,
{
    if n == 0 || n > events.len() {
        s
    } else {
        let prev = scan_outages(events, (n - 1) as nat, max_discharge, t, s);
        let e = events[n - 1];
        if e.contains(t) {
            let end_wh = prev.base - max_discharge * (e.end - t) * ENERGY_PER_WATT_SECOND;
            observe(prev, max_int(end_wh, prev.floor), t)
        } else {
            prev
        }
    }
}

/// Whether some event holds the instant `t`.
pub open spec fn in_outage(events: Seq<Event>, t: int) -> bool {
    exists|i: int| 0 <= i < events.len() && (#[trigger] events[i]).contains(t)
}

/// Net power into the battery during one step, in watts, from the solar
/// power and whether the grid is on.
pub open spec fn step_power(config: InverterConfig, solar: int, have_grid: bool, mode: SimMode) -> int {
    let capped = match config.charge_power {
        Some(c) => min_int(solar, c as int),
        None => solar,
    };
    let p = capped - config.min_discharge_power;
    if have_grid {
        match mode {
            SimMode::Drain => p,
            SimMode::Hold => max_int(p, 0),
            SimMode::Charge => match config.charge_power {
                Some(c) => c as int,
                None => p,
            },
        }
    } else {
        p
    }
}

/// One step of the simulation, from the state after `k` steps.
pub open spec fn sim_step(
    config: InverterConfig,
    events: Seq<Event>,
    info: Info,
    solar: Seq<u32>,
    now: int,
    mode: SimMode,
    k: nat,
    s: Sim,
) -> Sim {
    let t = now + STEP_SECS * k;
    let scanned = scan_outages(events, events.len(), config.max_discharge_power as int, t, s);
    let p = step_power(config, solar[k as int] as int, !in_outage(events, t), mode);
    let base = scanned.base + p * STEP_ENERGY_PER_WATT;
    let floor = max_int(scanned.floor, base - usable_depth(config, info));
    observe(Sim { base, floor, ..scanned }, max_int(base, floor), t + STEP_SECS)
}

/// State of the simulation after `k` steps from `now`.
pub open spec fn sim(
    config: InverterConfig,
    events: Seq<Event>,
    info: Info,
    solar: Seq<u32>,
    now: int,
    mode: SimMode,
    k: nat,
) -> Sim
    decreases k,
{
    if k == 0 {
        Sim { base: 0, floor: -usable_depth(config, info), worst: 0, worst_time: now }
    } else {
        sim_step(
            config,
            events,
            info,
            solar,
            now,
            mode,
            (k - 1) as nat,
            sim(config, events, info, solar, now, mode, (k - 1) as nat),
        )
    }
}

/// State of charge that covers a deficit `worst` below the starting level:
/// the configured minimum plus the deficit as a share of capacity, rounded
/// down and clamped to `0..=FULL_SOC`.
pub open spec fn soc_for_deficit(config: InverterConfig, info: Info, worst: int) -> int {
    let extra = if capacity_ws(info) == 0 { 0 } else { (-worst) / capacity_ws(info) };
    let target = config.min_soc + extra;
    if target < 0 {
        0
    } else if target > FULL_SOC {
        FULL_SOC as int
    } else {
        target
    }
}

/// Target state of charge and instant of the lowest level, from 24 hours of
/// simulation in the given mode.
pub open spec fn spec_target_soc(
    config: InverterConfig,
    events: Seq<Event>,
    info: Info,
    solar: Seq<u32>,
    now: int,
    mode: SimMode,
) -> (int, int) {
    let s = sim(config, events, info, solar, now, mode, NUM_STEPS as nat);
    (soc_for_deficit(config, info, s.worst), s.worst_time)
}

/// Bound on the magnitude of the usable depth.
pub open spec fn depth_bound() -> int {
    664082786653543858176
}

/// Simulate the battery level for 24 hours from `now` in one-minute steps and
/// derive the state of charge (hundredths of a percent) that keeps the level
/// above the configured minimum throughout, with the instant of the lowest
/// level. `solar` holds the solar power for each step, in watts.
pub fn target_soc_helper(
    config: &InverterConfig,
    state: &State,
    info: &Info,
    now: i64,
    solar: &Vec<u32>,
    mode: SimMode,
) -> (r: (u32, i64))
    requires
        solar.len() == NUM_STEPS,
        now <= i64::MAX - NUM_STEPS * STEP_SECS,
    ensures
        r.0 as int == spec_target_soc(*config, state.events@, *info, solar@, now as int, mode).0,
        r.1 as int == spec_target_soc(*config, state.events@, *info, solar@, now as int, mode).1,
        r.0 <= FULL_SOC,
{
    let ghost events = state.events@;
    let cap: i128 = info.capacity as i128 * 36;
    proof {
        let d = FULL_SOC as int - config.min_soc as int;
        assert(-0x1_0000_0000 <= d <= 0x1_0000_0000);
        assert(0 <= cap <= 0x1_0000_0000 * 36);
        assert(-depth_bound() <= cap * d <= depth_bound()) by (nonlinear_arith)
            requires
                -0x1_0000_0000 <= d <= 0x1_0000_0000,
                0 <= cap <= 0x1_0000_0000 * 36,
        ;
    }
    let depth: i128 = cap * (FULL_SOC as i128 - config.min_soc as i128);
    let max_discharge: i128 = config.max_discharge_power as i128;
    let mut base: i128 = 0;
    let mut floor: i128 = -depth;
    let mut worst: i128 = 0;
    let mut worst_time: i64 = now;
    let mut k: usize = 0;
    while k < NUM_STEPS
        invariant
            k <= NUM_STEPS,
            solar.len() == NUM_STEPS,
            now <= i64::MAX - NUM_STEPS * STEP_SECS,
            events == state.events@,
            cap == capacity_ws(*info),
            depth == usable_depth(*config, *info),
            -depth_bound() <= depth <= depth_bound(),
            max_discharge == config.max_discharge_power,
            sim(*config, events, *info, solar@, now as int, mode, k as nat) == (Sim {
                base: base as int,
                floor: floor as int,
                worst: worst as int,
                worst_time: worst_time as int,
            }),
            // Each step moves the level by at most 2^32 W for one step.
            -(k as int) * 2576980377600000 <= base <= (k as int) * 2576980377600000,
            -depth <= floor,
            min_int(0, -depth as int) <= worst <= 0,
            now <= worst_time <= now + STEP_SECS * k,
        decreases NUM_STEPS - k,
    {
        let t: i64 = now + STEP_SECS * k as i64;
        let ghost s0 = Sim {
            base: base as int,
            floor: floor as int,
            worst: worst as int,
            worst_time: worst_time as int,
        };
        let mut have_grid = true;
        let mut i: usize = 0;
        while i < state.events.len()
            invariant
                i <= state.events.len(),
                events == state.events@,
                max_discharge == config.max_discharge_power,
                -depth_bound() <= depth <= depth_bound(),
                -(k as int) * 2576980377600000 <= base <= (k as int) * 2576980377600000,
                k < NUM_STEPS,
                -depth <= floor,
                t == now + STEP_SECS * k,
                now <= worst_time <= now + STEP_SECS * k,
                min_int(0, -depth as int) <= worst <= 0,
                scan_outages(events, i as nat, max_discharge as int, t as int, s0) == (Sim {
                    base: base as int,
                    floor: floor as int,
                    worst: worst as int,
                    worst_time: worst_time as int,
                }),
                have_grid == !(exists|j: int| 0 <= j < i && (#[trigger] events[j]).contains(t as int)),
            decreases state.events.len() - i,
        {
            let e = &state.events[i];
            if t >= e.start && t < e.end {
                have_grid = false;
                let left: i128 = e.end as i128 - t as i128;
                proof {
                    assert(0 < left <= 0x1_0000_0000_0000_0000);
                    assert(0 <= max_discharge * left * ENERGY_PER_WATT_SECOND
                        <= 0x1_0000_0000 * 0x1_0000_0000_0000_0000 * 10000) by (nonlinear_arith)
                        requires
                            0 < left <= 0x1_0000_0000_0000_0000,
                            0 <= max_discharge < 0x1_0000_0000,
                            ENERGY_PER_WATT_SECOND == 10000,
                    ;
                    assert(0 <= max_discharge * left <= 0x1_0000_0000 * 0x1_0000_0000_0000_0000)
                        by (nonlinear_arith)
                        requires
                            0 < left <= 0x1_0000_0000_0000_0000,
                            0 <= max_discharge < 0x1_0000_0000,
                    ;
                }
                let end_wh: i128 = base - max_discharge * left * ENERGY_PER_WATT_SECOND;
                let v: i128 = if end_wh >= floor { end_wh } else { floor };
                if v < worst {
                    worst = v;
                    worst_time = t;
                }
            }
            proof {
                assert(events[i as int] == *e);
            }
            i += 1;
        }
        proof {
            assert(events.len() as nat == i as nat);
            if !have_grid {
                assert(in_outage(events, t as int));
            } else {
                assert(!in_outage(events, t as int));
            }
        }
        let mut power: i128 = solar[k] as i128;
        match config.charge_power {
            Some(c) => {
                if (c as i128) < power {
                    power = c as i128;
                }
            },
            None => {},
        }
        power = power - config.min_discharge_power as i128;
        if have_grid {
            match mode {
                SimMode::Drain => {},
                SimMode::Hold => {
                    if power < 0 {
                        power = 0;
                    }
                },
                SimMode::Charge => {
                    match config.charge_power {
                        Some(c) => {
                            power = c as i128;
                        },
                        None => {},
                    }
                },
            }
        }
        assert(-0x1_0000_0000 <= power <= 0x1_0000_0000);
        base = base + power * STEP_ENERGY_PER_WATT;
        if base - depth > floor {
            floor = base - depth;
        }
        let v: i128 = if base >= floor { base } else { floor };
        if v < worst {
            worst = v;
            worst_time = t + STEP_SECS;
        }
        k += 1;
    }
    let extra: i128 = if cap == 0 { 0 } else { (-worst) / cap };
    let target: i128 = config.min_soc as i128 + extra;
    let soc: u32 = if target < 0 {
        0
    } else if target > FULL_SOC as i128 {
        FULL_SOC
    } else {
        target as u32
    };
    (soc, worst_time)
}

/// The three state-of-charge bounds `(low, high, alarm)`: with outage data,
/// from simulations in the modes `Hold`, `Drain` and `Charge`; without, the
/// fallback state of charge twice and the configured minimum.
pub open spec fn spec_target_socs(
    config: InverterConfig,
    events: Option<Seq<Event>>,
    info: Info,
    solar: Seq<u32>,
    now: int,
) -> (int, int, int) {
    match events {
        None => (config.fallback_soc as int, config.fallback_soc as int, config.min_soc as int),
        Some(ev) => (
            spec_target_soc(config, ev, info, solar, now, SimMode::Hold).0,
            spec_target_soc(config, ev, info, solar, now, SimMode::Drain).0,
            spec_target_soc(config, ev, info, solar, now, SimMode::Charge).0,
        ),
    }
}

/// The events of an optional forecast.
pub open spec fn events_of(state: Option<&State>) -> Option<Seq<Event>> {
    match state {
        Some(s) => Some(s.events@),
        None => None,
    }
}

/// Compute `(target_low, target_high, alarm_soc)` in hundredths of a percent.
pub fn target_socs(
    config: &InverterConfig,
    state: Option<&State>,
    info: &Info,
    now: i64,
    solar: &Vec<u32>,
) -> (r: (u32, u32, u32))
    requires
        solar.len() == NUM_STEPS,
        now <= i64::MAX - NUM_STEPS * STEP_SECS,
    ensures
        (r.0 as int, r.1 as int, r.2 as int) == spec_target_socs(
            *config,
            events_of(state),
            *info,
            solar@,
            now as int,
        ),
        state.is_none() ==> r == (config.fallback_soc, config.fallback_soc, config.min_soc),
{
    match state {
        None => (config.fallback_soc, config.fallback_soc, config.min_soc),
        Some(state) => {
            let (target_high, _) = target_soc_helper(config, state, info, now, solar, SimMode::Drain);
            let (target_low, _) = target_soc_helper(config, state, info, now, solar, SimMode::Hold);
            let (alarm, _) = target_soc_helper(config, state, info, now, solar, SimMode::Charge);
            (target_low, target_high, alarm)
        },
    }
}

/// Whether a forecast fetched at `time` is still usable at `now`, given the
/// timeout in seconds.
pub open spec fn is_fresh(time: int, now: int, timeout: int) -> bool {
    time >= now - timeout
}

/// The forecast, if there is one and it is not older than `timeout` seconds
/// at `now`.
pub fn filter_state(state: &Option<State>, now: i64, timeout: u64) -> (r: Option<&State>)
    ensures
        r == match state {
            Some(s) => if is_fresh(s.time as int, now as int, timeout as int) {
                Some(s)
            } else {
                None
            },
            None => None,
        },
{
    match state {
        Some(s) => {
            if s.time as i128 >= now as i128 - timeout as i128 {
                Some(s)
            } else {
                None
            }
        },
        None => None,
    }
}

/// The events of the forecast, if there is one and it is still usable.
pub open spec fn fresh_events(state: Option<State>, now: int, timeout: int) -> Option<Seq<Event>> {
    match state {
        Some(s) => if is_fresh(s.time as int, now, timeout) {
            Some(s.events@)
        } else {
            None
        },
        None => None,
    }
}

/// Without a usable forecast (none at all, or one older than the timeout),
/// the bounds are exactly the fallback state of charge, twice, and the
/// configured minimum.
pub proof fn lemma_no_forecast_gives_fallback(
    config: InverterConfig,
    state: Option<State>,
    info: Info,
    solar: Seq<u32>,
    now: int,
    timeout: int,
)
    requires
        match state {
            Some(s) => !is_fresh(s.time as int, now, timeout),
            None => true,
        },
    ensures
        spec_target_socs(config, fresh_events(state, now, timeout), info, solar, now) == (
            config.fallback_soc as int,
            config.fallback_soc as int,
            config.min_soc as int,
        ),
{
}

/// The state of charge to program: the current one, moved into the range
/// from `low` to `high` (to `low` where the range is empty).
pub open spec fn spec_clamp_soc(current: int, low: int, high: int) -> int {
    let capped = if current <= high { current } else { high };
    if capped >= low { capped } else { low }
}

/// The outcome of one cycle of the state-of-charge controller.
#[derive(Clone, Debug)]
pub struct SocPlan {
    /// Minimum state of charge to program, in hundredths of a percent.
    pub target: u32,
    /// Record for the monitoring sink.
    pub update: SocUpdate,
}

/// Decide one cycle of the state-of-charge controller at `now`, from the
/// shared forecast (ignored when older than `esp_timeout` seconds), the
/// battery information, the current state of charge (hundredths of a
/// percent), the solar forecast for each step and the solar power now.
pub fn plan_soc_update(
    config: &InverterConfig,
    state: &Option<State>,
    esp_timeout: u64,
    info: &Info,
    current_soc: u32,
    now: i64,
    solar: &Vec<u32>,
    predicted_pv: u32,
) -> (r: SocPlan)
    requires
        solar.len() == NUM_STEPS,
        now <= i64::MAX - NUM_STEPS * STEP_SECS,
    ensures
        ({
            let fresh = fresh_events(*state, now as int, esp_timeout as int);
            let socs = spec_target_socs(*config, fresh, *info, solar@, now as int);
            &&& r.update.target_soc_low as int == socs.0
            &&& r.update.target_soc_high as int == socs.1
            &&& r.update.alarm_soc as int == socs.2
            &&& r.target as int == spec_clamp_soc(current_soc as int, socs.0, socs.1)
            &&& r.update.time == now
            &&& r.update.current_soc == current_soc
            &&& r.update.predicted_pv == predicted_pv
            &&& match fresh {
                Some(ev) => status_holds(ev, now as int, r.update.is_loadshedding, r.update.next_change),
                None => !r.update.is_loadshedding && r.update.next_change.is_none(),
            }
        }),
        fresh_events(*state, now as int, esp_timeout as int).is_none() ==> {
            &&& r.target == config.fallback_soc
            &&& r.update.target_soc_low == config.fallback_soc
            &&& r.update.target_soc_high == config.fallback_soc
            &&& r.update.alarm_soc == config.min_soc
            &&& !r.update.is_loadshedding
            &&& r.update.next_change.is_none()
        },
{
    let fresh = filter_state(state, now, esp_timeout);
    let (target_soc_low, target_soc_high, alarm_soc) = target_socs(config, fresh, info, now, solar);
    let capped = if current_soc <= target_soc_high { current_soc } else { target_soc_high };
    let target = if capped >= target_soc_low { capped } else { target_soc_low };
    let (is_loadshedding, next_change) = match fresh {
        Some(s) => loadshedding_status(&s.events, now),
        None => (false, None),
    };
    SocPlan {
        target,
        update: SocUpdate {
            time: now,
            target_soc_low,
            target_soc_high,
            alarm_soc,
            current_soc,
            predicted_pv,
            is_loadshedding,
            next_change,
        },
    }
}

proof fn lemma_scan_monotone(
    events: Seq<Event>,
    n: nat,
    max_discharge: int,
    t: int,
    s1: Sim,
    s2: Sim,
)
    requires
        s2.base <= s1.base,
        s2.floor <= s1.floor,
        s2.worst <= s1.worst,
    ensures
        scan_outages(events, n, max_discharge, t, s1).base == s1.base,
        scan_outages(events, n, max_discharge, t, s1).floor == s1.floor,
        scan_outages(events, n, max_discharge, t, s2).base == s2.base,
        scan_outages(events, n, max_discharge, t, s2).floor == s2.floor,
        scan_outages(events, n, max_discharge, t, s2).worst <= scan_outages(
            events,
            n,
            max_discharge,
            t,
            s1,
        ).worst,
    decreases n,
{
    if n > 0 && n <= events.len() {
        lemma_scan_monotone(events, (n - 1) as nat, max_discharge, t, s1, s2);
    }
}

proof fn lemma_sim_monotone(
    config: InverterConfig,
    min_discharge_power: u32,
    events: Seq<Event>,
    info: Info,
    solar: Seq<u32>,
    now: int,
    mode: SimMode,
    k: nat,
)
    requires
        config.min_discharge_power <= min_discharge_power,
        k <= solar.len(),
    ensures
        ({
            let heavier = InverterConfig { min_discharge_power, ..config };
            let s1 = sim(config, events, info, solar, now, mode, k);
            let s2 = sim(heavier, events, info, solar, now, mode, k);
            &&& s2.base <= s1.base
            &&& s2.floor <= s1.floor
            &&& s2.worst <= s1.worst
        }),
    decreases k,
{
    let heavier = InverterConfig { min_discharge_power, ..config };
    if k > 0 {
        let j = (k - 1) as nat;
        lemma_sim_monotone(config, min_discharge_power, events, info, solar, now, mode, j);
        let t = now + STEP_SECS * j;
        let p1 = sim(config, events, info, solar, now, mode, j);
        let p2 = sim(heavier, events, info, solar, now, mode, j);
        lemma_scan_monotone(events, events.len(), config.max_discharge_power as int, t, p1, p2);
        let have_grid = !in_outage(events, t);
        assert(step_power(heavier, solar[j as int] as int, have_grid, mode) <= step_power(
            config,
            solar[j as int] as int,
            have_grid,
            mode,
        ));
    }
}

/// A heavier minimum household load never lowers any of the three bounds:
/// with every other input held fixed, raising `min_discharge_power` leaves
/// `target_low`, `target_high` and the alarm level where they were or raises
/// them.
pub proof fn lemma_targets_monotone_in_load(
    config: InverterConfig,
    min_discharge_power: u32,
    events: Option<Seq<Event>>,
    info: Info,
    solar: Seq<u32>,
    now: int,
)
    requires
        config.min_discharge_power <= min_discharge_power,
        solar.len() == NUM_STEPS,
    ensures
        ({
            let heavier = InverterConfig { min_discharge_power, ..config };
            let light = spec_target_socs(config, events, info, solar, now);
            let heavy = spec_target_socs(heavier, events, info, solar, now);
            &&& light.0 <= heavy.0
            &&& light.1 <= heavy.1
            &&& light.2 <= heavy.2
        }),
{
    if let Some(ev) = events {
        lemma_target_monotone_in_load(config, min_discharge_power, ev, info, solar, now, SimMode::Hold);
        lemma_target_monotone_in_load(config, min_discharge_power, ev, info, solar, now, SimMode::Drain);
        lemma_target_monotone_in_load(config, min_discharge_power, ev, info, solar, now, SimMode::Charge);
    }
}

proof fn lemma_target_monotone_in_load(
    config: InverterConfig,
    min_discharge_power: u32,
    events: Seq<Event>,
    info: Info,
    solar: Seq<u32>,
    now: int,
    mode: SimMode,
)
    requires
        config.min_discharge_power <= min_discharge_power,
        solar.len() == NUM_STEPS,
    ensures
        spec_target_soc(config, events, info, solar, now, mode).0 <= spec_target_soc(
            InverterConfig { min_discharge_power, ..config },
            events,
            info,
            solar,
            now,
            mode,
        ).0,
{
    let heavier = InverterConfig { min_discharge_power, ..config };
    lemma_sim_monotone(config, min_discharge_power, events, info, solar, now, mode, NUM_STEPS as nat);
    let w1 = sim(config, events, info, solar, now, mode, NUM_STEPS as nat).worst;
    let w2 = sim(heavier, events, info, solar, now, mode, NUM_STEPS as nat).worst;
    if capacity_ws(info) != 0 {
        lemma_div_is_ordered(-w1, -w2, capacity_ws(info));
    }
}

} // verus!
