//! Register layout and value encodings of a Sunsynk inverter.

use vstd::arithmetic::div_mod::{
    lemma_fundamental_div_mod, lemma_fundamental_div_mod_converse_div,
    lemma_fundamental_div_mod_converse_mod,
};
use vstd::prelude::*;

use crate::coil::AveragePower;
use crate::inverter::{CoilInfo, Info};

verus! {

/// Holding register of the clock (three words).
pub const REG_CLOCK: u16 = 22;
/// Holding register of the battery capacity, in amp-hours.
pub const REG_BATTERY_CAPACITY_AH: u16 = 204;
/// Holding register of the battery restart voltage, in hundredths of a volt.
pub const REG_BATTERY_RESTART_VOLTAGE: u16 = 221;
/// Holding register of the grid charge current, in amps.
pub const REG_GRID_CHARGE_CURRENT: u16 = 230;
/// Holding register of the state of charge, in percent.
pub const REG_SOC: u16 = 184;
/// First holding register of the program start times.
pub const REG_PROGRAM_TIME: u16 = 250;
/// First holding register of the program states of charge.
pub const REG_PROGRAM_SOC: u16 = 268;
/// Holding register of the trickle setting (two words).
pub const REG_TRICKLE: u16 = 206;
/// Holding register of the power at the CT coil.
pub const REG_COIL_POWER: u16 = 172;
/// Holding register of the power at the inverter.
pub const REG_INVERTER_POWER: u16 = 167;
/// Holding register of the system mode.
pub const REG_SYSTEM_MODE: u16 = 244;
/// System mode in which the trickle setting applies to the CT coil.
pub const SYSTEM_MODE_COIL: u16 = 2;
/// Largest trickle setting, in watts.
pub const MAX_TRICKLE: i64 = 32760;

/// Number of time-of-use program blocks.
pub const NUM_PROGRAMS: usize = 6;

/// Minutes in a day.
pub const MINUTES_PER_DAY: u16 = 1440;

/// A time of day, in minutes after midnight.
#[derive(Clone, Copy, Debug, PartialEq, Eq, Structural)]
pub struct TimeOfDay {
    pub minutes: u16,
}

impl TimeOfDay {
    pub open spec fn wf(self) -> bool {
        self.minutes < MINUTES_PER_DAY
    }

    /// Midnight.
    pub fn midnight() -> (r: TimeOfDay)
        ensures
            r.minutes == 0,
    {
        TimeOfDay { minutes: 0 }
    }

    /// The time `hour:minute`, if both are in range.
    pub fn from_hm(hour: u16, minute: u16) -> (r: Option<TimeOfDay>)
        ensures
            r == if hour < 24 && minute < 60 {
                Some(TimeOfDay { minutes: (hour * 60 + minute) as u16 })
            } else {
                None
            },
    {
        if hour < 24 && minute < 60 {
            Some(TimeOfDay { minutes: hour * 60 + minute })
        } else {
            None
        }
    }

    pub fn hour(&self) -> (r: u16)
        ensures
            r == self.minutes / 60,
    {
        self.minutes / 60
    }

    pub fn minute(&self) -> (r: u16)
        ensures
            r == self.minutes % 60,
    {
        self.minutes % 60
    }
}

/// One block of the inverter's daily program: from `time` on, keep at least
/// `soc` percent.
#[derive(Clone, Copy, Debug, PartialEq, Eq, Structural)]
pub struct Program {
    pub time: TimeOfDay,
    pub soc: u16,
}

/// A local date and time as the inverter's clock gives it.
#[derive(Clone, Copy, Debug, PartialEq, Eq, Structural)]
pub struct LocalDateTime {
    pub year: i32,
    pub month: u8,
    pub day: u8,
    pub hour: u8,
    pub minute: u8,
    pub second: u8,
}

/// Decode a time stored as `hour * 100 + minute`; a value that is no valid
/// time of day gives `None`.
pub fn decode_time(raw: u16) -> (r: Option<TimeOfDay>)
    ensures
        r == if raw / 100 < 24 && raw % 100 < 60 {
            Some(TimeOfDay { minutes: ((raw / 100) * 60 + raw % 100) as u16 })
        } else {
            None
        },
{
    TimeOfDay::from_hm(raw / 100, raw % 100)
}

/// Encode a time of day as `hour * 100 + minute`.
pub fn encode_time(time: TimeOfDay) -> (r: u16)
    requires
        time.wf(),
    ensures
        r == (time.minutes / 60) * 100 + time.minutes % 60,
{
    time.hour() * 100 + time.minute()
}

/// Whole percent for a state of charge given in hundredths of a percent:
/// 0 below zero, 100 from full upwards, otherwise rounded half up.
pub open spec fn spec_round_soc(soc: int) -> int {
    if soc < 0 {
        0
    } else if soc >= 10000 {
        100
    } else {
        (soc + 50) / 100
    }
}

/// Convert a state of charge (hundredths of a percent) to the whole percent
/// that a program register holds, clamped to `0..=100`.
pub fn round_soc(soc: i64) -> (r: u16)
    ensures
        r == spec_round_soc(soc as int),
        0 <= r <= 100,
        soc < 0 ==> r == 0,
        soc >= 10000 ==> r == 100,
{
    if soc < 0 {
        0
    } else if soc >= 10000 {
        100
    } else {
        ((soc + 50) / 100) as u16
    }
}

/// `x` seconds rounded to the nearest multiple of five minutes (the
/// resolution of program start times), ties rounding up.
pub open spec fn round_to_step(x: int) -> int {
    ((x + 150) / 300) * 300
}

/// Minute of the day of the instant `x` seconds after some midnight, rounded
/// to five minutes.
pub open spec fn slot(x: int) -> int {
    (round_to_step(x) % 86400) / 60
}

pub open spec fn seconds_of_day(now: LocalDateTime) -> int {
    now.hour * 3600 + now.minute * 60 + now.second
}

/// Start time of block `i` before any rotation: block 0 ten minutes before
/// `now`, block 1 ten minutes after, the rest five minutes apart after it,
/// all rounded to five minutes and wrapped at midnight.
pub open spec fn raw_time(now: LocalDateTime, i: int) -> int
    decreases i,
{
    if i <= 0 {
        slot(seconds_of_day(now) - 600)
    } else if i == 1 {
        slot(seconds_of_day(now) + 600)
    } else {
        (raw_time(now, i - 1) + 5) % (MINUTES_PER_DAY as int)
    }
}

/// Block `i` before any rotation: the target for block 0, the fallback for
/// the others.
pub open spec fn raw_program(target: i64, fallback: i64, now: LocalDateTime, i: int) -> Program {
    Program {
        time: TimeOfDay { minutes: raw_time(now, i) as u16 },
        soc: if i == 0 {
            spec_round_soc(target as int) as u16
        } else {
            spec_round_soc(fallback as int) as u16
        },
    }
}

/// The first block from `i` on that starts earlier than its predecessor, or
/// 0 if there is none.
pub open spec fn first_descent(now: LocalDateTime, i: int) -> int
    decreases NUM_PROGRAMS - i,
{
    if i <= 0 || i >= NUM_PROGRAMS {
        0
    } else if raw_time(now, i) < raw_time(now, i - 1) {
        i
    } else {
        first_descent(now, i + 1)
    }
}

/// The blocks, rotated left at the first one that wraps past midnight.
pub open spec fn spec_programs(target: i64, fallback: i64, now: LocalDateTime) -> Seq<Program> {
    let k = first_descent(now, 1);
    Seq::new(
        NUM_PROGRAMS as nat,
        |j: int| raw_program(target, fallback, now, (j + k) % (NUM_PROGRAMS as int)),
    )
}

/// Closed form of `slot`: five minutes times the step count modulo a day.
proof fn lemma_slot(x: int)
    ensures
        slot(x) == 5 * (((x + 150) / 300) % 288),
        slot(x + 86400) == slot(x),
        slot(x + 1200) == 5 * (((x + 150) / 300 + 4) % 288),
{
    let q = (x + 150) / 300;
    let r = (x + 150) % 300;
    lemma_fundamental_div_mod(x + 150, 300);
    lemma_fundamental_div_mod_converse_div(x + 150 + 86400, 300, q + 288, r);
    lemma_fundamental_div_mod_converse_div(x + 150 + 1200, 300, q + 4, r);
    lemma_slot_of_steps(q);
    lemma_slot_of_steps(q + 288);
    lemma_slot_of_steps(q + 4);
    lemma_fundamental_div_mod(q, 288);
    lemma_fundamental_div_mod_converse_mod(q + 288, 288, q / 288 + 1, q % 288);
}

proof fn lemma_slot_of_steps(q: int)
    ensures
        ((q * 300) % 86400) / 60 == 5 * (q % 288),
{
    lemma_fundamental_div_mod(q, 288);
    let a = q % 288;
    assert(q * 300 == (q / 288) * 86400 + a * 300) by (nonlinear_arith)
        requires
            q == 288 * (q / 288) + a,
    ;
    lemma_fundamental_div_mod_converse_mod(q * 300, 86400, q / 288, a * 300);
    lemma_fundamental_div_mod_converse_div(a * 300, 60, a * 5, 0);
}

/// Block start times in minutes of the day, in terms of the count `a` of
/// five-minute steps from midnight to block 0.
proof fn lemma_raw_times(now: LocalDateTime)
    ensures
        ({
            let a = ((seconds_of_day(now) - 450) / 300) % 288;
            &&& 0 <= a < 288
            &&& raw_time(now, 0) == 5 * a
            &&& forall|i: int|
                1 <= i < NUM_PROGRAMS ==> #[trigger] raw_time(now, i) == if a + 3 + i >= 288 {
                    5 * (a + 3 + i - 288)
                } else {
                    5 * (a + 3 + i)
                }
        }),
{
    let x = seconds_of_day(now) - 600;
    lemma_slot(x);
    let q = (x + 150) / 300;
    let a = q % 288;
    lemma_fundamental_div_mod(q, 288);
    if a + 4 < 288 {
        lemma_fundamental_div_mod_converse_mod(q + 4, 288, q / 288, a + 4);
    } else {
        lemma_fundamental_div_mod_converse_mod(q + 4, 288, q / 288 + 1, a + 4 - 288);
    }
    assert(x + 1200 == seconds_of_day(now) + 600);
    assert forall|i: int| 1 <= i < NUM_PROGRAMS implies #[trigger] raw_time(now, i) == if a + 3
        + i >= 288 {
        5 * (a + 3 + i - 288)
    } else {
        5 * (a + 3 + i)
    } by {
        lemma_raw_time_step(now, a, i);
    }
}

proof fn lemma_raw_time_step(now: LocalDateTime, a: int, i: int)
    requires
        0 <= a < 288,
        1 <= i < NUM_PROGRAMS,
        raw_time(now, 1) == if a + 4 >= 288 {
            5 * (a + 4 - 288)
        } else {
            5 * (a + 4)
        },
    ensures
        raw_time(now, i) == if a + 3 + i >= 288 {
            5 * (a + 3 + i - 288)
        } else {
            5 * (a + 3 + i)
        },
    decreases i,
{
    if i > 1 {
        lemma_raw_time_step(now, a, i - 1);
        let prev = raw_time(now, i - 1);
        if prev + 5 >= 1440 {
            lemma_fundamental_div_mod_converse_mod(prev + 5, 1440, 1, prev + 5 - 1440);
        } else {
            lemma_fundamental_div_mod_converse_mod(prev + 5, 1440, 0, prev + 5);
        }
    }
}

/// Minute of the day of `x` seconds after some midnight, rounded to five
/// minutes.
fn step_slot(x: i64) -> (r: u16)
    requires
        -86400 <= x <= 1_000_000,
    ensures
        r == slot(x as int),
        r < MINUTES_PER_DAY,
{
    proof {
        lemma_slot(x as int);
    }
    let y: i64 = x + 86400;
    let q: i64 = (y + 150) / 300;
    (((q * 300) % 86400) / 60) as u16
}

/// Build the program table that makes the inverter keep `target` (hundredths
/// of a percent) now and `fallback` afterwards.
///
/// The inverter truncates start times to five minutes, so the target goes to
/// a block starting ten minutes before `now_local` and the fallback to one
/// starting ten minutes after, both rounded to five minutes; the remaining
/// blocks follow five minutes apart. Where the times wrap past midnight the
/// table is rotated to keep them sorted.
pub fn make_programs(target: i64, fallback: i64, now_local: &LocalDateTime) -> (r: [Program; NUM_PROGRAMS])
    ensures
        r@ == spec_programs(target, fallback, *now_local),
        forall|i: int| 0 <= i < NUM_PROGRAMS ==> (#[trigger] r@[i]).time.wf(),
{
    let target_soc = round_soc(target);
    let fallback_soc = round_soc(fallback);
    let sod: i64 = now_local.hour as i64 * 3600 + now_local.minute as i64 * 60
        + now_local.second as i64;
    let mut times: Vec<u16> = Vec::new();
    times.push(step_slot(sod - 600));
    times.push(step_slot(sod + 600));
    let mut i: usize = 2;
    while i < NUM_PROGRAMS
        invariant
            2 <= i <= NUM_PROGRAMS,
            times@.len() == i,
            forall|j: int| 0 <= j < i ==> #[trigger] times@[j] == raw_time(*now_local, j),
            forall|j: int| 0 <= j < i ==> #[trigger] times@[j] < MINUTES_PER_DAY,
        decreases NUM_PROGRAMS - i,
    {
        let next = (times[i - 1] + 5) % MINUTES_PER_DAY;
        times.push(next);
        i += 1;
    }
    let mut k: usize = 0;
    let mut i: usize = 1;
    while i < NUM_PROGRAMS && k == 0
        invariant
            1 <= i <= NUM_PROGRAMS,
            times@.len() == NUM_PROGRAMS,
            forall|j: int| 0 <= j < NUM_PROGRAMS ==> #[trigger] times@[j] == raw_time(*now_local, j),
            k == 0 ==> first_descent(*now_local, 1) == first_descent(*now_local, i as int),
            k != 0 ==> k as int == first_descent(*now_local, 1) && k < NUM_PROGRAMS,
        decreases NUM_PROGRAMS - i,
    {
        if times[i] < times[i - 1] {
            k = i;
        }
        i += 1;
    }
    proof {
        assert(k as int == first_descent(*now_local, 1));
    }
    let ghost raw = |j: int| raw_program(target, fallback, *now_local, j);
    let mut blocks: Vec<Program> = Vec::new();
    let mut j: usize = 0;
    while j < NUM_PROGRAMS
        invariant
            j <= NUM_PROGRAMS,
            k < NUM_PROGRAMS,
            k as int == first_descent(*now_local, 1),
            times@.len() == NUM_PROGRAMS,
            forall|m: int| 0 <= m < NUM_PROGRAMS ==> #[trigger] times@[m] == raw_time(*now_local, m),
            forall|m: int| 0 <= m < NUM_PROGRAMS ==> #[trigger] times@[m] < MINUTES_PER_DAY,
            target_soc == spec_round_soc(target as int),
            fallback_soc == spec_round_soc(fallback as int),
            blocks@.len() == j,
            forall|m: int|
                0 <= m < j ==> #[trigger] blocks@[m] == raw_program(
                    target,
                    fallback,
                    *now_local,
                    (m + k) % (NUM_PROGRAMS as int),
                ),
            forall|m: int| 0 <= m < j ==> (#[trigger] blocks@[m]).time.wf(),
        decreases NUM_PROGRAMS - j,
    {
        let src = (j + k) % NUM_PROGRAMS;
        let soc = if src == 0 { target_soc } else { fallback_soc };
        blocks.push(Program { time: TimeOfDay { minutes: times[src] }, soc });
        j += 1;
    }
    let r = [blocks[0], blocks[1], blocks[2], blocks[3], blocks[4], blocks[5]];
    proof {
        assert(r@ =~= spec_programs(target, fallback, *now_local));
    }
    r
}

/// Shortest distance between two times of day, in minutes, around the clock.
pub open spec fn cyclic_distance(a: int, b: int) -> int {
    let d = if a >= b { a - b } else { b - a };
    if d <= 720 { d } else { 1440 - d }
}

/// The program table is laid out as the inverter needs it: the start times
/// rise strictly from the first block to the last; the block that carries
/// the target starts ten minutes before `now` rounded to five minutes; and
/// the first block starts within ten minutes of that rounded `now`, except
/// when the rounded `now` is 23:30, 23:35, 23:40 or 23:45, where the blocks
/// after midnight come first.
pub proof fn lemma_programs_layout(target: i64, fallback: i64, now: LocalDateTime)
    ensures
        ({
            let p = spec_programs(target, fallback, now);
            let q = slot(seconds_of_day(now));
            let k = first_descent(now, 1);
            &&& forall|j: int|
                1 <= j < NUM_PROGRAMS ==> p[j - 1].time.minutes < (#[trigger] p[j]).time.minutes
            &&& p[(NUM_PROGRAMS - k) % (NUM_PROGRAMS as int)].soc == spec_round_soc(target as int)
            &&& p[(NUM_PROGRAMS - k) % (NUM_PROGRAMS as int)].time.minutes == (q + 1430) % 1440
            &&& !(1410 <= q <= 1425) ==> cyclic_distance(p[0].time.minutes as int, q) <= 10
        }),
{
    lemma_raw_times(now);
    let sod = seconds_of_day(now);
    let q0 = (sod - 450) / 300;
    let a = q0 % 288;
    lemma_fundamental_div_mod(sod - 450, 300);
    lemma_fundamental_div_mod_converse_div(sod + 150, 300, q0 + 2, (sod - 450) % 300);
    lemma_slot(sod);
    lemma_fundamental_div_mod(q0, 288);
    if a + 2 < 288 {
        lemma_fundamental_div_mod_converse_mod(q0 + 2, 288, q0 / 288, a + 2);
    } else {
        lemma_fundamental_div_mod_converse_mod(q0 + 2, 288, q0 / 288 + 1, a + 2 - 288);
    }
    let q = slot(sod);
    assert(q == if a + 2 < 288 { 5 * (a + 2) } else { 5 * (a + 2 - 288) });
    lemma_descent_index(now, a);
    if a < 280 {
        lemma_layout_rotated(target, fallback, now, a, q, 0);
    } else if a == 280 {
        lemma_layout_rotated(target, fallback, now, a, q, 5);
    } else if a == 281 {
        lemma_layout_rotated(target, fallback, now, a, q, 4);
    } else if a == 282 {
        lemma_layout_rotated(target, fallback, now, a, q, 3);
    } else if a == 283 {
        lemma_layout_rotated(target, fallback, now, a, q, 2);
    } else {
        lemma_layout_rotated(target, fallback, now, a, q, 1);
    }
}

/// Block start times in closed form, from the step count `a` of block 0.
pub open spec fn closed_times(now: LocalDateTime, a: int) -> bool {
    &&& 0 <= a < 288
    &&& raw_time(now, 0) == 5 * a
    &&& forall|i: int|
        1 <= i < NUM_PROGRAMS ==> #[trigger] raw_time(now, i) == if a + 3 + i >= 288 {
            5 * (a + 3 + i - 288)
        } else {
            5 * (a + 3 + i)
        }
}

proof fn lemma_descent_index(now: LocalDateTime, a: int)
    requires
        closed_times(now, a),
    ensures
        first_descent(now, 1) == if a >= 284 {
            1
        } else if a >= 280 {
            285 - a
        } else {
            0
        },
{
    reveal_with_fuel(first_descent, 6);
    // Instantiate the closed forms of the block times.
    assert(raw_time(now, 1) == raw_time(now, 1));
    assert(raw_time(now, 2) == raw_time(now, 2));
    assert(raw_time(now, 3) == raw_time(now, 3));
    assert(raw_time(now, 4) == raw_time(now, 4));
    assert(raw_time(now, 5) == raw_time(now, 5));
}

proof fn lemma_layout_rotated(
    target: i64,
    fallback: i64,
    now: LocalDateTime,
    a: int,
    q: int,
    k: int,
)
    requires
        closed_times(now, a),
        q == if a + 2 < 288 { 5 * (a + 2) } else { 5 * (a + 2 - 288) },
        k == first_descent(now, 1),
        k == if a >= 284 {
            1
        } else if a >= 280 {
            285 - a
        } else {
            0
        },
        0 <= k < NUM_PROGRAMS,
    ensures
        ({
            let p = spec_programs(target, fallback, now);
            &&& forall|j: int|
                1 <= j < NUM_PROGRAMS ==> p[j - 1].time.minutes < (#[trigger] p[j]).time.minutes
            &&& p[(NUM_PROGRAMS - k) % (NUM_PROGRAMS as int)].soc == spec_round_soc(target as int)
            &&& p[(NUM_PROGRAMS - k) % (NUM_PROGRAMS as int)].time.minutes == (q + 1430) % 1440
            &&& !(1410 <= q <= 1425) ==> cyclic_distance(p[0].time.minutes as int, q) <= 10
        }),
{
    let p = spec_programs(target, fallback, now);
    // Each case of `k` spells out which raw block lands at each index.
    assert forall|i: int| 0 <= i < NUM_PROGRAMS implies 0 <= #[trigger] raw_time(now, i) < 1440 by {
        if i > 0 {
            assert(raw_time(now, i) == raw_time(now, i));
        }
    }
    if k == 0 {
        assert(p[0].time.minutes == raw_time(now, 0));
        assert(p[1].time.minutes == raw_time(now, 1));
        assert(p[2].time.minutes == raw_time(now, 2));
        assert(p[3].time.minutes == raw_time(now, 3));
        assert(p[4].time.minutes == raw_time(now, 4));
        assert(p[5].time.minutes == raw_time(now, 5));
        assert(p[0] == raw_program(target, fallback, now, 0));
    } else if k == 1 {
        assert(p[0].time.minutes == raw_time(now, 1));
        assert(p[1].time.minutes == raw_time(now, 2));
        assert(p[2].time.minutes == raw_time(now, 3));
        assert(p[3].time.minutes == raw_time(now, 4));
        assert(p[4].time.minutes == raw_time(now, 5));
        assert(p[5].time.minutes == raw_time(now, 0));
        assert(p[5] == raw_program(target, fallback, now, 0));
    } else if k == 2 {
        assert(p[0].time.minutes == raw_time(now, 2));
        assert(p[1].time.minutes == raw_time(now, 3));
        assert(p[2].time.minutes == raw_time(now, 4));
        assert(p[3].time.minutes == raw_time(now, 5));
        assert(p[4].time.minutes == raw_time(now, 0));
        assert(p[5].time.minutes == raw_time(now, 1));
        assert(p[4] == raw_program(target, fallback, now, 0));
    } else if k == 3 {
        assert(p[0].time.minutes == raw_time(now, 3));
        assert(p[1].time.minutes == raw_time(now, 4));
        assert(p[2].time.minutes == raw_time(now, 5));
        assert(p[3].time.minutes == raw_time(now, 0));
        assert(p[4].time.minutes == raw_time(now, 1));
        assert(p[5].time.minutes == raw_time(now, 2));
        assert(p[3] == raw_program(target, fallback, now, 0));
    } else if k == 4 {
        assert(p[0].time.minutes == raw_time(now, 4));
        assert(p[1].time.minutes == raw_time(now, 5));
        assert(p[2].time.minutes == raw_time(now, 0));
        assert(p[3].time.minutes == raw_time(now, 1));
        assert(p[4].time.minutes == raw_time(now, 2));
        assert(p[5].time.minutes == raw_time(now, 3));
        assert(p[2] == raw_program(target, fallback, now, 0));
    } else {
        assert(p[0].time.minutes == raw_time(now, 5));
        assert(p[1].time.minutes == raw_time(now, 0));
        assert(p[2].time.minutes == raw_time(now, 1));
        assert(p[3].time.minutes == raw_time(now, 2));
        assert(p[4].time.minutes == raw_time(now, 3));
        assert(p[5].time.minutes == raw_time(now, 4));
        assert(p[1] == raw_program(target, fallback, now, 0));
    }
}

/// Whether `year` is a leap year of the Gregorian calendar.
pub open spec fn is_leap_year(year: int) -> bool {
    year % 4 == 0 && (year % 100 != 0 || year % 400 == 0)
}

/// Number of days in `month` (1 to 12) of `year`.
pub open spec fn days_in_month(year: int, month: int) -> int {
    if month == 2 {
        if is_leap_year(year) { 29 } else { 28 }
    } else if month == 4 || month == 6 || month == 9 || month == 11 {
        30
    } else {
        31
    }
}

/// Whether the fields name an existing date and time of day.
pub open spec fn is_valid_date_time(t: LocalDateTime) -> bool {
    &&& 1 <= t.month <= 12
    &&& 1 <= t.day <= days_in_month(t.year as int, t.month as int)
    &&& t.hour < 24
    &&& t.minute < 60
    &&& t.second < 60
}

/// The clock fields stored in three words: year after 2000 and month,
/// day and hour, minute and second, high byte first.
pub open spec fn clock_fields(words: Seq<u16>) -> LocalDateTime {
    LocalDateTime {
        year: (2000 + words[0] / 256) as i32,
        month: (words[0] % 256) as u8,
        day: (words[1] / 256) as u8,
        hour: (words[1] % 256) as u8,
        minute: (words[2] / 256) as u8,
        second: (words[2] % 256) as u8,
    }
}

/// Decode the inverter clock from its three registers. Fewer than three
/// words, or fields that name no existing date and time, give `None`.
pub fn decode_clock(words: &Vec<u16>) -> (r: Option<LocalDateTime>)
    ensures
        r == if words@.len() >= 3 && is_valid_date_time(clock_fields(words@)) {
            Some(clock_fields(words@))
        } else {
            None
        },
{
    if words.len() < 3 {
        return None;
    }
    let t = LocalDateTime {
        year: 2000 + (words[0] / 256) as i32,
        month: (words[0] % 256) as u8,
        day: (words[1] / 256) as u8,
        hour: (words[1] % 256) as u8,
        minute: (words[2] / 256) as u8,
        second: (words[2] % 256) as u8,
    };
    proof {
        assert(t == clock_fields(words@));
    }
    let leap = t.year % 4 == 0 && (t.year % 100 != 0 || t.year % 400 == 0);
    let month_days: u8 = if t.month == 2 {
        if leap { 29 } else { 28 }
    } else if t.month == 4 || t.month == 6 || t.month == 9 || t.month == 11 {
        30
    } else {
        31
    };
    if 1 <= t.month && t.month <= 12 && 1 <= t.day && t.day <= month_days && t.hour < 24
        && t.minute < 60 && t.second < 60 {
        Some(t)
    } else {
        None
    }
}

/// The program table held in the registers: block `i` takes its start time
/// from `times[i]` (midnight where that is no valid time) and its state of
/// charge from `socs[i]`; blocks past the end of either list keep midnight
/// or 0.
pub open spec fn spec_decode_programs(times: Seq<u16>, socs: Seq<u16>) -> Seq<Program> {
    Seq::new(
        NUM_PROGRAMS as nat,
        |i: int|
            Program {
                time: if i < times.len() && times[i] / 100 < 24 && times[i] % 100 < 60 {
                    TimeOfDay { minutes: ((times[i] / 100) * 60 + times[i] % 100) as u16 }
                } else {
                    TimeOfDay { minutes: 0 }
                },
                soc: if i < socs.len() {
                    socs[i]
                } else {
                    0
                },
            },
    )
}

/// Decode the program table from the words of the start-time registers and
/// of the state-of-charge registers.
pub fn decode_programs(times: &Vec<u16>, socs: &Vec<u16>) -> (r: [Program; NUM_PROGRAMS])
    ensures
        r@ == spec_decode_programs(times@, socs@),
        forall|i: int| 0 <= i < NUM_PROGRAMS ==> (#[trigger] r@[i]).time.wf(),
{
    let mut blocks: Vec<Program> = Vec::new();
    let mut i: usize = 0;
    while i < NUM_PROGRAMS
        invariant
            i <= NUM_PROGRAMS,
            blocks@.len() == i,
            forall|j: int|
                0 <= j < i ==> #[trigger] blocks@[j] == spec_decode_programs(times@, socs@)[j],
            forall|j: int| 0 <= j < i ==> (#[trigger] blocks@[j]).time.wf(),
        decreases NUM_PROGRAMS - i,
    {
        let time = if i < times.len() {
            match decode_time(times[i]) {
                Some(t) => t,
                None => TimeOfDay::midnight(),
            }
        } else {
            TimeOfDay::midnight()
        };
        let soc = if i < socs.len() { socs[i] } else { 0 };
        blocks.push(Program { time, soc });
        i += 1;
    }
    let r = [blocks[0], blocks[1], blocks[2], blocks[3], blocks[4], blocks[5]];
    proof {
        assert(r@ =~= spec_decode_programs(times@, socs@));
    }
    r
}

/// The words for the start-time registers of a program table.
pub fn program_time_words(programs: &[Program; NUM_PROGRAMS]) -> (r: Vec<u16>)
    requires
        forall|i: int| 0 <= i < NUM_PROGRAMS ==> (#[trigger] programs@[i]).time.wf(),
    ensures
        r@.len() == NUM_PROGRAMS,
        forall|i: int|
            0 <= i < NUM_PROGRAMS ==> #[trigger] r@[i] == (programs@[i].time.minutes / 60) * 100
                + programs@[i].time.minutes % 60,
{
    let mut words: Vec<u16> = Vec::new();
    let mut i: usize = 0;
    while i < NUM_PROGRAMS
        invariant
            i <= NUM_PROGRAMS,
            forall|j: int| 0 <= j < NUM_PROGRAMS ==> (#[trigger] programs@[j]).time.wf(),
            words@.len() == i,
            forall|j: int|
                0 <= j < i ==> #[trigger] words@[j] == (programs@[j].time.minutes / 60) * 100
                    + programs@[j].time.minutes % 60,
        decreases NUM_PROGRAMS - i,
    {
        words.push(encode_time(programs[i].time));
        i += 1;
    }
    words
}

/// The words for the state-of-charge registers of a program table.
pub fn program_soc_words(programs: &[Program; NUM_PROGRAMS]) -> (r: Vec<u16>)
    ensures
        r@.len() == NUM_PROGRAMS,
        forall|i: int| 0 <= i < NUM_PROGRAMS ==> #[trigger] r@[i] == programs@[i].soc,
{
    let mut words: Vec<u16> = Vec::new();
    let mut i: usize = 0;
    while i < NUM_PROGRAMS
        invariant
            i <= NUM_PROGRAMS,
            words@.len() == i,
            forall|j: int| 0 <= j < i ==> #[trigger] words@[j] == programs@[j].soc,
        decreases NUM_PROGRAMS - i,
    {
        words.push(programs[i].soc);
        i += 1;
    }
    words
}

/// Whether writing `new` over registers that hold `old` changes anything.
/// Equal values are not written again, to spare the inverter's storage.
pub fn needs_write(old: &Vec<u16>, new: &Vec<u16>) -> (r: bool)
    ensures
        r == (old@ != new@),
{
    if old.len() != new.len() {
        return true;
    }
    let mut i: usize = 0;
    while i < old.len()
        invariant
            i <= old.len(),
            old@.len() == new@.len(),
            forall|j: int| 0 <= j < i ==> old@[j] == new@[j],
        decreases old.len() - i,
    {
        if old[i] != new[i] {
            return true;
        }
        i += 1;
    }
    proof {
        assert(old@ =~= new@);
    }
    false
}

/// Battery information from the capacity (amp-hours), the restart voltage
/// (hundredths of a volt) and the grid charge current (amps).
pub fn battery_info(capacity_ah: u16, voltage: u16, charge_current: u16) -> (r: Info)
    ensures
        r.capacity == capacity_ah * voltage,
        r.charge_power == charge_current * voltage,
{
    proof {
        assert(capacity_ah * voltage <= 0xffff * 0xffff) by (nonlinear_arith)
            requires
                capacity_ah <= 0xffff,
                voltage <= 0xffff,
        ;
        assert(charge_current * voltage <= 0xffff * 0xffff) by (nonlinear_arith)
            requires
                charge_current <= 0xffff,
                voltage <= 0xffff,
        ;
    }
    Info {
        capacity: capacity_ah as u32 * voltage as u32,
        charge_power: charge_current as u32 * voltage as u32,
    }
}

/// A register word read as a signed 16-bit value.
pub open spec fn signed_word(raw: u16) -> int {
    if raw >= 0x8000 { raw - 0x10000 } else { raw as int }
}

fn to_signed(raw: u16) -> (r: i32)
    ensures
        r == signed_word(raw),
{
    if raw >= 0x8000 {
        raw as i32 - 0x10000
    } else {
        raw as i32
    }
}

/// Coil readings from the coil power, the inverter power (both signed watts)
/// and the system mode.
pub fn coil_info(coil_raw: u16, inverter_raw: u16, mode: u16) -> (r: CoilInfo)
    ensures
        r.coil == signed_word(coil_raw),
        r.inverter == signed_word(inverter_raw),
        r.coil_active == (mode == SYSTEM_MODE_COIL),
{
    CoilInfo {
        coil: to_signed(coil_raw),
        inverter: to_signed(inverter_raw),
        coil_active: mode == SYSTEM_MODE_COIL,
    }
}

/// The trickle setting for a mean power: the mean rounded to the nearest
/// multiple of 10 W (halves away from zero), clamped to `0..=MAX_TRICKLE`.
pub open spec fn spec_trickle(p: AveragePower) -> int {
    if p.sum <= 0 {
        0
    } else {
        let rounded = 10 * ((2 * p.sum + 10 * p.count) / (20 * p.count));
        if rounded > MAX_TRICKLE { MAX_TRICKLE as int } else { rounded }
    }
}

/// The words for the trickle registers: the setting in watts, then zero.
pub fn trickle_words(trickle: AveragePower) -> (r: Vec<u16>)
    requires
        trickle.count > 0,
    ensures
        r@ == seq![spec_trickle(trickle) as u16, 0u16],
        0 <= spec_trickle(trickle) <= MAX_TRICKLE,
{
    let setting: i64 = if trickle.sum <= 0 {
        0
    } else {
        let sum: i128 = trickle.sum as i128;
        let count: i128 = trickle.count as i128;
        let rounded: i128 = 10 * ((2 * sum + 10 * count) / (20 * count));
        if rounded > MAX_TRICKLE as i128 {
            MAX_TRICKLE
        } else {
            rounded as i64
        }
    };
    proof {
        if trickle.sum > 0 {
            let n = 2 * trickle.sum + 10 * trickle.count;
            let d = 20 * trickle.count;
            assert(n / d >= 0) by (nonlinear_arith)
                requires
                    n >= 0,
                    d > 0,
            ;
        }
    }
    let mut words: Vec<u16> = Vec::new();
    words.push(setting as u16);
    words.push(0);
    proof {
        assert(words@ =~= seq![spec_trickle(trickle) as u16, 0u16]);
    }
    words
}

/// The state of charge in hundredths of a percent, from the register's
/// whole percent.
pub fn soc_from_register(raw: u16) -> (r: u32)
    ensures
        r == raw * 100,
{
    raw as u32 * 100
}

} // verus!
