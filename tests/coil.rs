use socit::coil::{AveragePower, CoilController, WINDOW};
use socit::config::CoilConfig;
use socit::inverter::CoilInfo;

fn reading(coil: i32, inverter: i32, coil_active: bool) -> Option<CoilInfo> {
    Some(CoilInfo { coil, inverter, coil_active })
}

fn filled(config: CoilConfig, coil: i32) -> CoilController {
    let mut c = CoilController::new(config);
    for _ in 0..WINDOW - 1 {
        let plan = c.observe(reading(coil, 200, true));
        // Reported with no target while the window fills.
        assert!(plan.active);
        assert_eq!(plan.target, None);
        assert!(plan.set_trickle.is_none());
    }
    c
}

const CONFIG: CoilConfig = CoilConfig { power_threshold: 1000, trickle: 50 };

#[test]
fn first_full_window_sets_trickle() {
    let mut c = filled(CONFIG, 450);
    let plan = c.observe(reading(450, 200, true));
    assert!(plan.active);
    // 450 - 200 + 50 = 300 W on each of 11 samples.
    let mean = AveragePower { sum: 3300, count: 11 };
    assert_eq!(plan.target, Some(mean));
    assert_eq!(plan.set_trickle, Some(mean));
    assert_eq!(c.last_setting, None);
    c.record_setting(mean);
    assert_eq!(c.last_setting, Some(mean));
}

#[test]
fn small_move_is_not_written() {
    let mut c = filled(CONFIG, 450);
    let plan = c.observe(reading(450, 200, true));
    c.record_setting(plan.set_trickle.unwrap());
    // One sample 105 W higher moves the mean by 105/11 < 10 W.
    let plan = c.observe(reading(555, 200, true));
    assert_eq!(plan.target, Some(AveragePower { sum: 3405, count: 11 }));
    assert_eq!(plan.set_trickle, None);
}

#[test]
fn move_at_threshold_is_written_once() {
    let mut c = filled(CONFIG, 450);
    let plan = c.observe(reading(450, 200, true));
    c.record_setting(plan.set_trickle.unwrap());
    // One sample 110 W higher moves the mean by exactly 10 W.
    let plan = c.observe(reading(560, 200, true));
    let mean = AveragePower { sum: 3410, count: 11 };
    assert_eq!(plan.set_trickle, Some(mean));
    c.record_setting(mean);
    // The same window again stays put.
    let plan = c.observe(reading(450, 200, true));
    assert_eq!(plan.target, Some(mean));
    assert_eq!(plan.set_trickle, None);
}

#[test]
fn misreading_voids_the_mean() {
    let mut c = filled(CONFIG, 450);
    // Net export 1300 W exceeds the threshold.
    let plan = c.observe(reading(1500, 200, true));
    assert_eq!(plan.target, None);
    assert_eq!(plan.set_trickle, None);
    // It stays in the window for ten more cycles.
    for _ in 0..WINDOW - 1 {
        assert_eq!(c.observe(reading(450, 200, true)).target, None);
    }
    assert!(c.observe(reading(450, 200, true)).target.is_some());
}

#[test]
fn missing_reading_voids_the_mean() {
    let mut c = filled(CONFIG, 450);
    let plan = c.observe(None);
    assert!(!plan.active);
    assert_eq!(plan.target, None);
}

#[test]
fn inactive_coil_is_not_written() {
    let mut c = filled(CONFIG, 450);
    let plan = c.observe(reading(450, 200, false));
    assert!(!plan.active);
    assert_eq!(plan.target, Some(AveragePower { sum: 3300, count: 11 }));
    assert_eq!(plan.set_trickle, None);
}

#[test]
fn window_keeps_eleven_samples() {
    let mut c = CoilController::new(CONFIG);
    for i in 0..30 {
        c.observe(reading(200 + i, 200, true));
        assert_eq!(c.history.len(), std::cmp::min(i as usize + 1, WINDOW));
    }
    // The window holds the samples for i = 19..=29: 50 + i each.
    let plan = c.observe(reading(230, 200, true));
    let sum: i64 = (20..=30).map(|i| 50 + i).sum();
    assert_eq!(plan.target, Some(AveragePower { sum, count: 11 }));
}
