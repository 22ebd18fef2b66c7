use socit::coil::AveragePower;
use socit::config::{
    default_host, dry_run_default, id_default, interval_default, timeout_default,
};
use socit::sunsynk::{
    battery_info, coil_info, decode_clock, decode_time, encode_time, needs_write,
    soc_from_register, trickle_words, LocalDateTime, TimeOfDay,
};

#[test]
fn time_words() {
    assert_eq!(decode_time(0), Some(TimeOfDay { minutes: 0 }));
    assert_eq!(decode_time(1230), Some(TimeOfDay { minutes: 750 }));
    assert_eq!(decode_time(2359), Some(TimeOfDay { minutes: 1439 }));
    assert_eq!(decode_time(2400), None);
    assert_eq!(decode_time(1260), None);
    assert_eq!(decode_time(65535), None);
    assert_eq!(encode_time(TimeOfDay { minutes: 750 }), 1230);
    assert_eq!(encode_time(TimeOfDay { minutes: 1439 }), 2359);
    assert_eq!(TimeOfDay::from_hm(7, 5), Some(TimeOfDay { minutes: 425 }));
    assert_eq!(TimeOfDay::from_hm(7, 60), None);
}

#[test]
fn clock_words() {
    let words = vec![(24 << 8) | 2, (29 << 8) | 13, (45 << 8) | 30];
    assert_eq!(
        decode_clock(&words),
        Some(LocalDateTime { year: 2024, month: 2, day: 29, hour: 13, minute: 45, second: 30 })
    );
    // 2023 has no 29 February.
    assert_eq!(decode_clock(&vec![(23 << 8) | 2, (29 << 8) | 13, (45 << 8) | 30]), None);
    // 2000 is a leap year.
    assert!(decode_clock(&vec![2, (29 << 8) | 13, 0]).is_some());
    assert_eq!(decode_clock(&vec![(24 << 8) | 13, (1 << 8), 0]), None);
    assert_eq!(decode_clock(&vec![(24 << 8) | 4, (31 << 8), 0]), None);
    assert_eq!(decode_clock(&vec![(24 << 8) | 4, (30 << 8) | 24, 0]), None);
    assert_eq!(decode_clock(&vec![(24 << 8) | 4, (30 << 8) | 23, (59 << 8) | 60]), None);
    assert_eq!(decode_clock(&vec![(24 << 8) | 4, (30 << 8)]), None);
}

#[test]
fn equal_words_are_not_written() {
    assert!(!needs_write(&vec![1, 2, 3], &vec![1, 2, 3]));
    assert!(!needs_write(&vec![], &vec![]));
    assert!(needs_write(&vec![1, 2, 3], &vec![1, 2, 4]));
    assert!(needs_write(&vec![1, 2], &vec![1, 2, 3]));
}

#[test]
fn trickle_rounding() {
    assert_eq!(trickle_words(AveragePower { sum: 1100, count: 11 }), vec![100, 0]);
    // 105 W rounds away from zero to 110 W; 104.9 W to 100 W.
    assert_eq!(trickle_words(AveragePower { sum: 1155, count: 11 }), vec![110, 0]);
    assert_eq!(trickle_words(AveragePower { sum: 1049, count: 10 }), vec![100, 0]);
    assert_eq!(trickle_words(AveragePower { sum: 44, count: 11 }), vec![0, 0]);
    assert_eq!(trickle_words(AveragePower { sum: -3300, count: 11 }), vec![0, 0]);
    assert_eq!(trickle_words(AveragePower { sum: 400_000, count: 11 }), vec![32760, 0]);
    assert_eq!(trickle_words(AveragePower { sum: i64::MAX, count: 1 }), vec![32760, 0]);
}

#[test]
fn battery_and_coil_words() {
    let info = battery_info(100, 5120, 50);
    // 100 Ah at 51.20 V is 5120 Wh; 50 A is 2560 W.
    assert_eq!(info.capacity, 512_000);
    assert_eq!(info.charge_power, 256_000);
    let coil = coil_info(0xffff, 100, 2);
    assert_eq!((coil.coil, coil.inverter, coil.coil_active), (-1, 100, true));
    let coil = coil_info(0x8000, 0x7fff, 1);
    assert_eq!((coil.coil, coil.inverter, coil.coil_active), (-32768, 32767, false));
    assert_eq!(soc_from_register(57), 5700);
}

#[test]
fn configuration_defaults() {
    assert_eq!(id_default(), 1);
    assert!(!dry_run_default());
    assert_eq!(interval_default(), 2400);
    assert_eq!(timeout_default(), 14400);
    assert_eq!(default_host(), "http://localhost:8086");
}
