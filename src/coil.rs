//! Trickle-charge control from the readings of a current-transformer coil.
//!
//! Each cycle records the trickle target implied by the coil reading in a
//! rolling window. Once the window is full and every sample in it is known,
//! their mean is the new target; it is written to the inverter only when it
//! moves far enough from the setting written last.

use vstd::prelude::*;
use vstd::std_specs::vecdeque::axiom_spec_len;

use std::collections::VecDeque;

use crate::config::CoilConfig;
use crate::inverter::CoilInfo;

verus! {

broadcast use axiom_spec_len;

/// Number of samples in the rolling window.
pub const WINDOW: usize = 11;

/// Smallest change of the mean, in watts, that is written to the inverter.
pub const HYSTERESIS: i64 = 10;

/// Bound on the magnitude of one sample, in watts.
pub const SAMPLE_BOUND: i64 = 0x4_0000_0000;

/// The mean of `count` power readings in watts, kept exactly as `sum / count`.
#[derive(Clone, Copy, Debug, PartialEq, Eq, Structural)]
pub struct AveragePower {
    pub sum: i64,
    pub count: u32,
}

/// Whether the means `a` and `b` differ by at least `w` watts, for positive
/// counts: `|a.sum / a.count - b.sum / b.count| >= w`, cross-multiplied.
pub open spec fn differ_by_at_least(a: AveragePower, b: AveragePower, w: int) -> bool {
    let d = a.sum * b.count - b.sum * a.count;
    let bound = w * a.count * b.count;
    d >= bound || -d >= bound
}

/// Trickle target for one reading: the net export seen by the coil plus the
/// configured trickle, unless there is no reading or the net export exceeds
/// the threshold (a misreading of the coil).
pub open spec fn sample_of(config: CoilConfig, reading: Option<CoilInfo>) -> Option<i64> {
    match reading {
        Some(r) => {
            let ne = r.coil - r.inverter;
            if ne <= config.power_threshold {
                Some((ne + config.trickle) as i64)
            } else {
                None
            }
        },
        None => None,
    }
}

/// The window after recording `sample`: the oldest sample leaves a full window.
pub open spec fn next_history(h: Seq<Option<i64>>, sample: Option<i64>) -> Seq<Option<i64>> {
    if h.len() == WINDOW {
        h.drop_first().push(sample)
    } else {
        h.push(sample)
    }
}

/// The sum of the samples, if every one is known.
pub open spec fn window_sum(h: Seq<Option<i64>>) -> Option<int>
    decreases h.len(),
{
    if h.len() == 0 {
        Some(0)
    } else {
        match (window_sum(h.drop_last()), h.last()) {
            (Some(s), Some(v)) => Some(s + v),
            _ => None,
        }
    }
}

/// The mean of a full window whose samples are all known.
pub open spec fn window_mean(h: Seq<Option<i64>>) -> Option<AveragePower> {
    if h.len() == WINDOW {
        match window_sum(h) {
            Some(s) => Some(AveragePower { sum: s as i64, count: WINDOW as u32 }),
            None => None,
        }
    } else {
        None
    }
}

/// What one cycle of the coil controller decided. Every cycle is reported
/// to the monitoring sink, whether or not a setting is written; while the
/// window fills there is no target.
#[derive(Clone, Debug)]
pub struct CoilPlan {
    /// Whether the inverter applies the trickle setting to the coil.
    pub active: bool,
    /// Mean of the window, if it is full and every sample is known.
    pub target: Option<AveragePower>,
    /// Setting to write to the inverter, if any.
    pub set_trickle: Option<AveragePower>,
}

/// The decision for a window `h` (after recording the new sample), the new
/// reading, and the setting written last.
pub open spec fn spec_plan(
    h: Seq<Option<i64>>,
    reading: Option<CoilInfo>,
    last_setting: Option<AveragePower>,
) -> CoilPlan {
    let active = match reading {
        Some(r) => r.coil_active,
        None => false,
    };
    let target = window_mean(h);
    let set_trickle = match target {
        Some(m) => if active && match last_setting {
            Some(l) => differ_by_at_least(l, m, HYSTERESIS as int),
            None => true,
        } {
            Some(m)
        } else {
            None
        },
        None => None,
    };
    CoilPlan { active, target, set_trickle }
}

proof fn lemma_product_bound(a: int, b: int)
    requires
        i64::MIN <= a <= i64::MAX,
        0 <= b <= u32::MAX,
    ensures
        -0x1_0000_0000_0000_0000_0000_0000 <= a * b <= 0x1_0000_0000_0000_0000_0000_0000,
{
    assert(-0x1_0000_0000_0000_0000_0000_0000 <= a * b <= 0x1_0000_0000_0000_0000_0000_0000)
        by (nonlinear_arith)
        requires
            -0x8000_0000_0000_0000 <= a <= 0x8000_0000_0000_0000,
            0 <= b <= 0x1_0000_0000,
    ;
}

/// Rolling-window filter and hysteresis for the trickle setting.
pub struct CoilController {
    pub history: VecDeque<Option<i64>>,
    pub config: CoilConfig,
    pub last_setting: Option<AveragePower>,
}

impl CoilController {
    /// The window holds at most `WINDOW` samples, each of bounded size, and
    /// the last setting, if any, is an average of `WINDOW` samples.
    pub open spec fn wf(&self) -> bool {
        &&& self.history@.len() <= WINDOW
        &&& forall|i: int|
            0 <= i < self.history@.len() ==> match #[trigger] self.history@[i] {
                Some(v) => -SAMPLE_BOUND <= v <= SAMPLE_BOUND,
                None => true,
            }
        &&& match self.last_setting {
            Some(l) => l.count == WINDOW,
            None => true,
        }
    }

    /// A controller with an empty window and no setting written yet.
    pub fn new(config: CoilConfig) -> (r: Self)
        ensures
            r.wf(),
            r.history@.len() == 0,
            r.config == config,
            r.last_setting.is_none(),
    {
        CoilController { history: VecDeque::with_capacity(WINDOW), config, last_setting: None }
    }

    /// Record the reading of this cycle and decide what to write.
    ///
    /// The window gains the reading's sample (losing its oldest one when
    /// full); the setting written last is left as it is until
    /// `record_setting` is called.
    pub fn observe(&mut self, reading: Option<CoilInfo>) -> (plan: CoilPlan)
        requires
            old(self).wf(),
        ensures
            final(self).wf(),
            final(self).config == old(self).config,
            final(self).last_setting == old(self).last_setting,
            final(self).history@ == next_history(
                old(self).history@,
                sample_of(old(self).config, reading),
            ),
            plan == spec_plan(final(self).history@, reading, old(self).last_setting),
    {
        let sample: Option<i64> = match &reading {
            Some(r) => {
                let ne: i64 = r.coil as i64 - r.inverter as i64;
                if ne <= self.config.power_threshold as i64 {
                    Some(ne + self.config.trickle as i64)
                } else {
                    None
                }
            },
            None => None,
        };
        if self.history.len() == WINDOW {
            self.history.pop_front();
        }
        self.history.push_back(sample);
        proof {
            assert(self.history@ == next_history(old(self).history@, sample));
        }
        let active = match &reading {
            Some(r) => r.coil_active,
            None => false,
        };
        if self.history.len() != WINDOW {
            return CoilPlan { active, target: None, set_trickle: None };
        }
        let mut sum: i64 = 0;
        let mut known = true;
        let mut i: usize = 0;
        while i < self.history.len()
            invariant
                self.wf(),
                self.history@.len() == WINDOW,
                i <= WINDOW,
                known ==> window_sum(self.history@.subrange(0, i as int)) == Some(sum as int),
                known ==> -(i as int) * SAMPLE_BOUND <= sum <= (i as int) * SAMPLE_BOUND,
                !known ==> window_sum(self.history@.subrange(0, i as int)).is_none(),
            decreases WINDOW - i,
        {
            let ghost prefix = self.history@.subrange(0, i as int + 1);
            proof {
                assert(prefix.drop_last() == self.history@.subrange(0, i as int));
                assert(prefix.last() == self.history@[i as int]);
            }
            match self.history[i] {
                Some(v) => {
                    if known {
                        sum = sum + v;
                    }
                },
                None => {
                    known = false;
                },
            }
            i += 1;
        }
        proof {
            assert(self.history@.subrange(0, WINDOW as int) == self.history@);
        }
        let target = if known {
            Some(AveragePower { sum, count: WINDOW as u32 })
        } else {
            None
        };
        let set_trickle = match target {
            Some(m) => {
                let far = match self.last_setting {
                    Some(l) => {
                        proof {
                            lemma_product_bound(l.sum as int, m.count as int);
                            lemma_product_bound(m.sum as int, l.count as int);
                        }
                        let d: i128 = l.sum as i128 * m.count as i128 - m.sum as i128
                            * l.count as i128;
                        let bound: i128 = HYSTERESIS as i128 * l.count as i128 * m.count as i128;
                        d >= bound || -d >= bound
                    },
                    None => true,
                };
                if active && far {
                    Some(m)
                } else {
                    None
                }
            },
            None => None,
        };
        CoilPlan { active, target, set_trickle }
    }

    /// Note that `setting` was written to the inverter.
    pub fn record_setting(&mut self, setting: AveragePower)
        requires
            old(self).wf(),
            setting.count == WINDOW,
        ensures
            final(self).wf(),
            final(self).history@ == old(self).history@,
            final(self).config == old(self).config,
            final(self).last_setting == Some(setting),
    {
        self.last_setting = Some(setting);
    }
}

} // verus!
