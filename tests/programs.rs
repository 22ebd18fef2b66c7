use socit::sunsynk::{
    decode_programs, make_programs, program_soc_words, program_time_words, round_soc,
    LocalDateTime, Program, TimeOfDay,
};

fn at(hour: u8, minute: u8, second: u8) -> LocalDateTime {
    LocalDateTime { year: 2024, month: 3, day: 14, hour, minute, second }
}

fn times(programs: &[Program; 6]) -> Vec<u16> {
    programs.iter().map(|p| p.time.minutes).collect()
}

fn socs(programs: &[Program; 6]) -> Vec<u16> {
    programs.iter().map(|p| p.soc).collect()
}

#[test]
fn round_soc_clamps_and_rounds() {
    assert_eq!(round_soc(-1), 0);
    assert_eq!(round_soc(i64::MIN), 0);
    assert_eq!(round_soc(0), 0);
    assert_eq!(round_soc(49), 0);
    assert_eq!(round_soc(50), 1);
    assert_eq!(round_soc(4949), 49);
    assert_eq!(round_soc(4950), 50);
    assert_eq!(round_soc(9999), 100);
    assert_eq!(round_soc(10000), 100);
    assert_eq!(round_soc(250000), 100);
    assert_eq!(round_soc(i64::MAX), 100);
}

#[test]
fn programs_around_noon() {
    let p = make_programs(5000, 8000, &at(12, 3, 0));
    assert_eq!(times(&p), vec![715, 735, 740, 745, 750, 755]);
    assert_eq!(socs(&p), vec![50, 80, 80, 80, 80, 80]);
}

#[test]
fn programs_round_ties_up() {
    let p = make_programs(2000, 3000, &at(12, 2, 30));
    assert_eq!(times(&p), vec![715, 735, 740, 745, 750, 755]);
    let p = make_programs(2000, 3000, &at(12, 2, 29));
    assert_eq!(times(&p), vec![710, 730, 735, 740, 745, 750]);
}

#[test]
fn programs_wrap_at_first_block() {
    let p = make_programs(4049, 9000, &at(23, 58, 0));
    assert_eq!(times(&p), vec![10, 15, 20, 25, 30, 1430]);
    assert_eq!(socs(&p), vec![90, 90, 90, 90, 90, 40]);
}

#[test]
fn programs_wrap_at_later_block() {
    let p = make_programs(6000, 2000, &at(23, 42, 0));
    assert_eq!(times(&p), vec![0, 5, 10, 1410, 1430, 1435]);
    assert_eq!(socs(&p), vec![20, 20, 20, 60, 20, 20]);
}

#[test]
fn programs_just_after_midnight() {
    let p = make_programs(6000, 2000, &at(0, 1, 0));
    // Target block at 23:50, the rest from 00:10.
    assert_eq!(times(&p), vec![10, 15, 20, 25, 30, 1430]);
    assert_eq!(socs(&p), vec![20, 20, 20, 20, 20, 60]);
}

#[test]
fn programs_sorted_through_the_day() {
    for minute in 0..1440u32 {
        for second in [0u8, 29, 30, 59] {
            let now = at((minute / 60) as u8, (minute % 60) as u8, second);
            let p = make_programs(5000, 2000, &now);
            let t = times(&p);
            for i in 1..6 {
                assert!(t[i - 1] < t[i], "{:?} at {}:{}", t, minute, second);
            }
            assert_eq!(p.iter().filter(|b| b.soc == 50).count(), 1);
        }
    }
}

#[test]
fn program_words_round_trip() {
    let p = make_programs(5000, 8000, &at(12, 3, 0));
    let tw = program_time_words(&p);
    assert_eq!(tw, vec![1155, 1215, 1220, 1225, 1230, 1235]);
    let sw = program_soc_words(&p);
    assert_eq!(sw, vec![50, 80, 80, 80, 80, 80]);
    assert_eq!(decode_programs(&tw, &sw), p);
}

#[test]
fn decode_programs_defaults() {
    let p = decode_programs(&vec![2400, 1260, 30], &vec![10, 20, 30, 40, 50, 60, 70]);
    let midnight = TimeOfDay { minutes: 0 };
    assert_eq!(p[0], Program { time: midnight, soc: 10 });
    assert_eq!(p[1], Program { time: midnight, soc: 20 });
    assert_eq!(p[2], Program { time: TimeOfDay { minutes: 30 }, soc: 30 });
    assert_eq!(p[3], Program { time: midnight, soc: 40 });
    assert_eq!(p[5], Program { time: midnight, soc: 60 });
    let empty = decode_programs(&vec![], &vec![]);
    assert_eq!(empty, [Program { time: midnight, soc: 0 }; 6]);
}
