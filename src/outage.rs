//! Predicted grid outages.

use vstd::prelude::*;

verus! {

/// One predicted outage: the grid is off from `start` (inclusive) to `end`
/// (exclusive), both in seconds since the UNIX epoch.
#[derive(Clone, Debug)]
pub struct Event {
    pub start: i64,
    pub end: i64,
}

impl Event {
    /// Whether the instant `t` falls inside the outage.
    pub open spec fn contains(self, t: int) -> bool {
        self.start <= t < self.end
    }
}

/// The latest outage forecast, with the instant it was fetched.
#[derive(Clone, Debug)]
pub struct State {
    pub events: Vec<Event>,
    pub time: i64,
}

/// Whether `(is_loadshedding, next_change)` describes `events` at `now`: if
/// an event holds `now`, the first such one ends at `next_change`; otherwise
/// `next_change` is the earliest start after `now`, if any.
pub open spec fn status_holds(
    events: Seq<Event>,
    now: int,
    is_loadshedding: bool,
    next_change: Option<i64>,
) -> bool {
    if exists|i: int| 0 <= i < events.len() && (#[trigger] events[i]).contains(now) {
        &&& is_loadshedding
        &&& exists|i: int|
            0 <= i < events.len() && (#[trigger] events[i]).contains(now) && next_change
                == Some(events[i].end) && forall|j: int|
                0 <= j < i ==> !(#[trigger] events[j]).contains(now)
    } else {
        &&& !is_loadshedding
        &&& match next_change {
            None => forall|i: int| 0 <= i < events.len() ==> !(now < (#[trigger] events[i]).start),
            Some(c) => {
                &&& exists|i: int|
                    0 <= i < events.len() && now < (#[trigger] events[i]).start && events[i].start
                        == c
                &&& forall|i: int|
                    0 <= i < events.len() && now < (#[trigger] events[i]).start ==> c
                        <= events[i].start
            },
        }
    }
}

/// Whether the grid is off at `now`, and the next instant at which that
/// changes, if the forecast shows one.
pub fn loadshedding_status(events: &Vec<Event>, now: i64) -> (r: (bool, Option<i64>))
    ensures
        status_holds(events@, now as int, r.0, r.1),
{
    let mut next_change: Option<i64> = None;
    let mut i: usize = 0;
    while i < events.len()
        invariant
            i <= events.len(),
            forall|j: int| 0 <= j < i ==> !(#[trigger] events@[j]).contains(now as int),
            match next_change {
                None => forall|j: int| 0 <= j < i ==> !(now < (#[trigger] events@[j]).start),
                Some(c) => {
                    &&& exists|j: int|
                        0 <= j < i && now < (#[trigger] events@[j]).start && events@[j].start == c
                    &&& forall|j: int|
                        0 <= j < i && now < (#[trigger] events@[j]).start ==> c <= events@[j].start
                },
            },
        decreases events.len() - i,
    {
        let e = &events[i];
        if now >= e.start && now < e.end {
            proof {
                assert(events@[i as int].contains(now as int));
            }
            return (true, Some(e.end));
        } else if now < e.start {
            next_change = match next_change {
                Some(c) => if e.start < c { Some(e.start) } else { Some(c) },
                None => Some(e.start),
            };
        }
        i += 1;
    }
    (false, next_change)
}

} // verus!
