use socit::config::InverterConfig;
use socit::control::{
    filter_state, plan_soc_update, target_soc_helper, target_socs, SimMode, NUM_STEPS,
};
use socit::inverter::Info;
use socit::outage::{loadshedding_status, Event, State};

const NOW: i64 = 1_700_000_000;
const HOUR: i64 = 3600;

fn config(min_discharge_power: u32) -> InverterConfig {
    InverterConfig {
        device: "192.168.0.10:502".to_string(),
        id: 1,
        min_soc: 2000,
        fallback_soc: 8000,
        min_discharge_power,
        max_discharge_power: 500,
        charge_power: None,
        dry_run: false,
    }
}

fn battery() -> Info {
    // 5000 Wh
    Info { capacity: 500_000, charge_power: 200_000 }
}

fn no_sun() -> Vec<u32> {
    vec![0; NUM_STEPS]
}

fn state(events: Vec<Event>) -> State {
    State { events, time: NOW }
}

#[test]
fn outage_in_two_hours_for_three_hours() {
    let st = state(vec![Event { start: NOW + 2 * HOUR, end: NOW + 5 * HOUR }]);
    let (high, worst_time) =
        target_soc_helper(&config(0), &st, &battery(), NOW, &no_sun(), SimMode::Drain);
    // 500 W for 3 h is 1500 Wh of 5000 Wh: 20% + 30%.
    assert_eq!(high, 5000);
    assert_eq!(worst_time, NOW + 2 * HOUR);
    let (low, high2, alarm) = target_socs(&config(0), Some(&st), &battery(), NOW, &no_sun());
    assert_eq!((low, high2, alarm), (5000, 5000, 5000));
}

#[test]
fn no_outage_keeps_minimum() {
    let st = state(vec![]);
    let (low, high, alarm) = target_socs(&config(0), Some(&st), &battery(), NOW, &no_sun());
    assert_eq!((low, high, alarm), (2000, 2000, 2000));
}

#[test]
fn drain_mode_counts_load_before_outage() {
    let st = state(vec![Event { start: NOW + 2 * HOUR, end: NOW + 5 * HOUR }]);
    // Draining, 100 W runs all day: 2400 Wh (48%) by the end of the horizon.
    let (high, _) = target_soc_helper(&config(100), &st, &battery(), NOW, &no_sun(), SimMode::Drain);
    assert_eq!(high, 6800);
    // Holding, the grid covers the load before the outage.
    let (low, _) = target_soc_helper(&config(100), &st, &battery(), NOW, &no_sun(), SimMode::Hold);
    assert_eq!(low, 5000);
}

#[test]
fn heavier_load_never_lowers_target_low() {
    let st = state(vec![
        Event { start: NOW + 2 * HOUR, end: NOW + 5 * HOUR },
        Event { start: NOW + 6 * HOUR, end: NOW + 10 * HOUR },
    ]);
    let (light, _, _) = target_socs(&config(0), Some(&st), &battery(), NOW, &no_sun());
    let (heavy, _, _) = target_socs(&config(100), Some(&st), &battery(), NOW, &no_sun());
    // 4 h at 500 W is 2000 Wh (40%); the heavier load also drains 300 Wh (6%)
    // during the first outage.
    assert_eq!(light, 6000);
    assert_eq!(heavy, 6600);
    assert!(light <= heavy);
}

#[test]
fn solar_charges_between_outages() {
    let st = state(vec![Event { start: NOW + 2 * HOUR, end: NOW + 5 * HOUR }]);
    let sun = vec![1000; NUM_STEPS];
    let mut cfg = config(0);
    cfg.charge_power = Some(600);
    // 600 W of capped solar for 2 h stores 1200 Wh before the outage, which
    // at 500 W for 3 h needs 1500 Wh: 300 Wh (6%) short.
    let (high, _) = target_soc_helper(&cfg, &st, &battery(), NOW, &sun, SimMode::Drain);
    assert_eq!(high, 2600);
}

#[test]
fn deep_outage_clamps_to_full() {
    let st = state(vec![Event { start: NOW, end: NOW + 20 * HOUR }]);
    let (high, _) = target_soc_helper(&config(0), &st, &battery(), NOW, &no_sun(), SimMode::Drain);
    assert_eq!(high, 10000);
}

#[test]
fn absent_forecast_gives_fallback() {
    let (low, high, alarm) = target_socs(&config(0), None, &battery(), NOW, &no_sun());
    assert_eq!((low, high, alarm), (8000, 8000, 2000));
}

#[test]
fn stale_forecast_is_dropped() {
    let st = Some(State { events: vec![], time: NOW - 4 * HOUR - 1 });
    assert!(filter_state(&st, NOW, 4 * 3600).is_none());
    let st = Some(State { events: vec![], time: NOW - 4 * HOUR });
    assert!(filter_state(&st, NOW, 4 * 3600).is_some());
    assert!(filter_state(&None, NOW, 4 * 3600).is_none());
}

#[test]
fn stale_forecast_plan_uses_fallback() {
    let st = Some(State {
        events: vec![Event { start: NOW - HOUR, end: NOW + HOUR }],
        time: NOW - 5 * HOUR,
    });
    let plan = plan_soc_update(&config(0), &st, 4 * 3600, &battery(), 5000, NOW, &no_sun(), 0);
    assert_eq!(plan.update.target_soc_low, 8000);
    assert_eq!(plan.update.target_soc_high, 8000);
    assert_eq!(plan.update.alarm_soc, 2000);
    assert_eq!(plan.target, 8000);
    assert!(!plan.update.is_loadshedding);
    assert_eq!(plan.update.next_change, None);
}

#[test]
fn plan_keeps_current_soc_inside_bounds() {
    let st = Some(state(vec![Event { start: NOW + 2 * HOUR, end: NOW + 5 * HOUR }]));
    let plan = plan_soc_update(&config(100), &st, 4 * 3600, &battery(), 5200, NOW, &no_sun(), 750);
    assert_eq!(plan.update.target_soc_low, 5000);
    assert_eq!(plan.update.target_soc_high, 6800);
    assert_eq!(plan.target, 5200);
    assert_eq!(plan.update.current_soc, 5200);
    assert_eq!(plan.update.predicted_pv, 750);
    assert_eq!(plan.update.time, NOW);
    assert_eq!(plan.update.next_change, Some(NOW + 2 * HOUR));
    let plan = plan_soc_update(&config(100), &st, 4 * 3600, &battery(), 9000, NOW, &no_sun(), 0);
    assert_eq!(plan.target, 6800);
    let plan = plan_soc_update(&config(100), &st, 4 * 3600, &battery(), 1000, NOW, &no_sun(), 0);
    assert_eq!(plan.target, 5000);
}

#[test]
fn status_during_outage() {
    let events = vec![
        Event { start: NOW + 5 * HOUR, end: NOW + 6 * HOUR },
        Event { start: NOW - HOUR, end: NOW + HOUR },
        Event { start: NOW - 2 * HOUR, end: NOW + 2 * HOUR },
    ];
    assert_eq!(loadshedding_status(&events, NOW), (true, Some(NOW + HOUR)));
}

#[test]
fn status_before_outages() {
    let events = vec![
        Event { start: NOW + 5 * HOUR, end: NOW + 6 * HOUR },
        Event { start: NOW - 3 * HOUR, end: NOW - 2 * HOUR },
        Event { start: NOW + 3 * HOUR, end: NOW + 4 * HOUR },
    ];
    assert_eq!(loadshedding_status(&events, NOW), (false, Some(NOW + 3 * HOUR)));
    assert_eq!(loadshedding_status(&vec![], NOW), (false, None));
    // The end is exclusive.
    let ended = vec![Event { start: NOW - HOUR, end: NOW }];
    assert_eq!(loadshedding_status(&ended, NOW), (false, None));
}
