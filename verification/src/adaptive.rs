//! When to predict and when to underline, from measured round trips.
//!
//! The smoothed round trip time (SRTT) turns predictions on and off with
//! hysteresis. A prediction that stays unanswered for long (a glitch) turns
//! them on as well, until enough quick answers have healed it.

use crate::clock;
use vstd::prelude::*;

verus! {

/// SRTT above which predictions are shown (30 ms).
pub const SRTT_TRIGGER_HIGH: u64 = 30_000_000;

/// SRTT up to which predictions are hidden again (20 ms).
pub const SRTT_TRIGGER_LOW: u64 = 20_000_000;

/// SRTT above which predictions are underlined (80 ms).
pub const FLAG_TRIGGER_HIGH: u64 = 80_000_000;

/// SRTT up to which underlining stops again (50 ms).
pub const FLAG_TRIGGER_LOW: u64 = 50_000_000;

/// A prediction that waits this long is a glitch (250 ms).
pub const GLITCH_THRESHOLD: u64 = 250_000_000;

/// A prediction that waits this long is underlined (5 s).
pub const GLITCH_FLAG_THRESHOLD: u64 = 5_000_000_000;

/// Quick answers that heal a glitch.
pub const GLITCH_REPAIR_COUNT: u32 = 10;

/// Shortest time between two quick answers that both count (150 ms).
pub const GLITCH_REPAIR_MININTERVAL: u64 = 150_000_000;

/// Time that a prediction may wait before any round trip was measured (5 s).
pub const DEFAULT_TIMEOUT: u64 = 5_000_000_000;

/// Least time that a prediction may wait (500 ms).
pub const MIN_TIMEOUT: u64 = 500_000_000;

/// Most time that a prediction may wait (10 s).
pub const MAX_TIMEOUT: u64 = 10_000_000_000;

/// Round trips that a prediction may wait.
pub const TIMEOUT_MULTIPLIER: u64 = 3;

/// A sample weighs one part in this many in the SRTT.
pub const SRTT_WEIGHT: u64 = 8;

/// What decides whether predictions are shown and underlined. Times are in nanoseconds.
#[derive(Debug, Clone, Copy, PartialEq, Eq, Structural)]
pub struct Adaptive {
    /// Smoothed round trip time, once one was measured.
    pub srtt: Option<u64>,
    /// Predictions are shown because round trips are slow.
    pub srtt_trigger: bool,
    /// Predictions are shown because of a glitch: quick answers that are still to come.
    pub glitch_trigger: u32,
    /// When a quick answer last counted.
    pub last_quick_confirmation: Option<u64>,
    /// Predictions are underlined.
    pub flagging: bool,
}

impl Adaptive {
    /// The state in which nothing was measured.
    pub open spec fn initial() -> Adaptive {
        Adaptive {
            srtt: None,
            srtt_trigger: false,
            glitch_trigger: 0,
            last_quick_confirmation: None,
            flagging: false,
        }
    }

    /// The SRTT after one more sample: the sample itself if it is the first,
    /// else an eighth of it and seven eighths of the old SRTT, rounded down.
    pub open spec fn smoothed(self, sample: u64) -> u64 {
        match self.srtt {
            Some(srtt) => ((sample + (SRTT_WEIGHT - 1) * srtt) / SRTT_WEIGHT as int) as u64,
            None => sample,
        }
    }

    /// The state after the two triggers followed the SRTT; `pending` tells
    /// whether predictions are being shown.
    pub open spec fn triggered(self, pending: bool) -> Adaptive {
        match self.srtt {
            Some(srtt) => Adaptive {
                srtt_trigger: if srtt > SRTT_TRIGGER_HIGH {
                    true
                } else if srtt <= SRTT_TRIGGER_LOW && !pending {
                    false
                } else {
                    self.srtt_trigger
                },
                flagging: if self.glitch_trigger > GLITCH_REPAIR_COUNT || srtt > FLAG_TRIGGER_HIGH {
                    true
                } else if srtt <= FLAG_TRIGGER_LOW {
                    false
                } else {
                    self.flagging
                },
                ..self
            },
            None => self,
        }
    }

    /// A round trip of `rtt`, measured at `now`, counts towards healing a glitch.
    pub open spec fn heals(self, rtt: u64, now: u64) -> bool {
        &&& rtt < GLITCH_THRESHOLD
        &&& self.glitch_trigger > 0
        &&& match self.last_quick_confirmation {
            Some(last) => clock::elapsed(last, now) >= GLITCH_REPAIR_MININTERVAL,
            None => true,
        }
    }

    /// The state after a round trip of `rtt` was measured at `now`.
    pub open spec fn sampled(self, rtt: u64, now: u64, pending: bool) -> Adaptive {
        let measured = (Adaptive { srtt: Some(self.smoothed(rtt)), ..self }).triggered(pending);
        if self.heals(rtt, now) {
            Adaptive {
                glitch_trigger: (measured.glitch_trigger - 1) as u32,
                last_quick_confirmation: Some(now),
                ..measured
            }
        } else {
            measured
        }
    }

    /// The state after the oldest prediction was seen to wait for `waited`.
    pub open spec fn waited(self, waited: u64) -> Adaptive {
        if waited >= GLITCH_FLAG_THRESHOLD {
            Adaptive { glitch_trigger: (GLITCH_REPAIR_COUNT * 2) as u32, flagging: true, ..self }
        } else if waited >= GLITCH_THRESHOLD && self.glitch_trigger < GLITCH_REPAIR_COUNT {
            Adaptive { glitch_trigger: GLITCH_REPAIR_COUNT, ..self }
        } else {
            self
        }
    }

    /// The state after the triggers were reset; the measurements stay.
    pub open spec fn untriggered(self) -> Adaptive {
        Adaptive { srtt_trigger: false, glitch_trigger: 0, flagging: false, ..self }
    }

    /// Predictions are to be shown.
    pub open spec fn predicts(self) -> bool {
        self.srtt_trigger || self.glitch_trigger > 0
    }

    /// Time that a prediction may wait: three times the SRTT, within bounds.
    pub open spec fn timeout(self) -> u64 {
        match self.srtt {
            Some(srtt) => if TIMEOUT_MULTIPLIER * srtt < MIN_TIMEOUT {
                MIN_TIMEOUT
            } else if TIMEOUT_MULTIPLIER * srtt > MAX_TIMEOUT {
                MAX_TIMEOUT
            } else {
                (TIMEOUT_MULTIPLIER * srtt) as u64
            },
            None => DEFAULT_TIMEOUT,
        }
    }

    /// The state in which nothing was measured.
    pub fn new() -> (a: Adaptive)
        ensures
            a == Adaptive::initial(),
    {
        Adaptive {
            srtt: None,
            srtt_trigger: false,
            glitch_trigger: 0,
            last_quick_confirmation: None,
            flagging: false,
        }
    }

    /// Lets the triggers follow the SRTT.
    pub fn update_triggers(&mut self, pending: bool)
        ensures
            *final(self) == old(self).triggered(pending),
    {
        if let Some(srtt) = self.srtt {
            if srtt > SRTT_TRIGGER_HIGH {
                self.srtt_trigger = true;
            } else if srtt <= SRTT_TRIGGER_LOW && !pending {
                self.srtt_trigger = false;
            }
            if srtt > FLAG_TRIGGER_HIGH {
                self.flagging = true;
            } else if srtt <= FLAG_TRIGGER_LOW {
                self.flagging = false;
            }
            if self.glitch_trigger > GLITCH_REPAIR_COUNT {
                self.flagging = true;
            }
        }
    }

    /// Takes in a round trip of `rtt` that was measured at `now`.
    pub fn update_srtt(&mut self, rtt: u64, now: u64, pending: bool)
        ensures
            *final(self) == old(self).sampled(rtt, now, pending),
    {
        let srtt: u64 = match self.srtt {
            Some(old_srtt) => {
                let sum: u128 = rtt as u128 + (SRTT_WEIGHT - 1) as u128 * old_srtt as u128;
                (sum / SRTT_WEIGHT as u128) as u64
            },
            None => rtt,
        };
        self.srtt = Some(srtt);
        self.update_triggers(pending);
        if rtt < GLITCH_THRESHOLD && self.glitch_trigger > 0 {
            let should_heal: bool = match self.last_quick_confirmation {
                Some(last) => now.saturating_sub(last) >= GLITCH_REPAIR_MININTERVAL,
                None => true,
            };
            if should_heal {
                self.glitch_trigger = self.glitch_trigger - 1;
                self.last_quick_confirmation = Some(now);
            }
        }
    }

    /// Takes in that the oldest prediction has waited for `waited`.
    pub fn note_wait(&mut self, waited: u64)
        ensures
            *final(self) == old(self).waited(waited),
    {
        if waited >= GLITCH_FLAG_THRESHOLD {
            self.glitch_trigger = GLITCH_REPAIR_COUNT * 2;
            self.flagging = true;
        } else if waited >= GLITCH_THRESHOLD && self.glitch_trigger < GLITCH_REPAIR_COUNT {
            self.glitch_trigger = GLITCH_REPAIR_COUNT;
        }
    }

    /// Time that a prediction may wait.
    pub fn prediction_timeout(&self) -> (timeout: u64)
        ensures
            timeout == self.timeout(),
    {
        match self.srtt {
            Some(srtt) => {
                let waits: u128 = TIMEOUT_MULTIPLIER as u128 * srtt as u128;
                if waits < MIN_TIMEOUT as u128 {
                    MIN_TIMEOUT
                } else if waits > MAX_TIMEOUT as u128 {
                    MAX_TIMEOUT
                } else {
                    waits as u64
                }
            },
            None => DEFAULT_TIMEOUT,
        }
    }
}

/// The SRTT never leaves the range of the samples: each new value lies between
/// the old one and the sample.
pub proof fn law_srtt_between(a: Adaptive, sample: u64)
    ensures
        match a.srtt {
            Some(old_srtt) => if old_srtt <= sample {
                old_srtt <= a.smoothed(sample) <= sample
            } else {
                sample <= a.smoothed(sample) <= old_srtt
            },
            None => a.smoothed(sample) == sample,
        },
{
}

/// Predictions are shown from above 30 ms on and hidden from 20 ms down, but
/// never hidden while some are pending; in between they stay as they are.
pub proof fn law_prediction_hysteresis(a: Adaptive, srtt: u64, pending: bool)
    requires
        a.srtt == Some(srtt),
    ensures
        srtt > SRTT_TRIGGER_HIGH ==> a.triggered(pending).srtt_trigger,
        SRTT_TRIGGER_LOW < srtt <= SRTT_TRIGGER_HIGH ==> a.triggered(pending).srtt_trigger
            == a.srtt_trigger,
        srtt <= SRTT_TRIGGER_LOW && !pending ==> !a.triggered(pending).srtt_trigger,
        srtt <= SRTT_TRIGGER_LOW && pending ==> a.triggered(pending).srtt_trigger
            == a.srtt_trigger,
{
}

/// Predictions are underlined from above 80 ms on and no longer from 50 ms
/// down; in between they stay as they are. A big glitch underlines them at any SRTT.
pub proof fn law_underline_hysteresis(a: Adaptive, srtt: u64, pending: bool)
    requires
        a.srtt == Some(srtt),
    ensures
        srtt > FLAG_TRIGGER_HIGH ==> a.triggered(pending).flagging,
        a.glitch_trigger > GLITCH_REPAIR_COUNT ==> a.triggered(pending).flagging,
        FLAG_TRIGGER_LOW < srtt <= FLAG_TRIGGER_HIGH && a.glitch_trigger <= GLITCH_REPAIR_COUNT
            ==> a.triggered(pending).flagging == a.flagging,
        srtt <= FLAG_TRIGGER_LOW && a.glitch_trigger <= GLITCH_REPAIR_COUNT ==> !a.triggered(
            pending,
        ).flagging,
{
}

/// A glitch never asks for more quick answers than twice the repair count,
/// whatever happens.
pub proof fn law_glitch_bounded(a: Adaptive, rtt: u64, now: u64, pending: bool)
    requires
        a.glitch_trigger <= 2 * GLITCH_REPAIR_COUNT,
    ensures
        a.sampled(rtt, now, pending).glitch_trigger <= 2 * GLITCH_REPAIR_COUNT,
        a.waited(rtt).glitch_trigger <= 2 * GLITCH_REPAIR_COUNT,
        a.untriggered().glitch_trigger <= 2 * GLITCH_REPAIR_COUNT,
{
}

/// Quick answers heal a glitch one by one, and two of them count only if they
/// are far enough apart.
pub proof fn law_heals_slowly(
    a: Adaptive,
    rtt: u64,
    now: u64,
    pending: bool,
    next_rtt: u64,
    later: u64,
)
    ensures
        a.sampled(rtt, now, pending).glitch_trigger == a.glitch_trigger - (if a.heals(rtt, now) {
            1int
        } else {
            0int
        }),
        a.heals(rtt, now) && now <= later < now + GLITCH_REPAIR_MININTERVAL ==> !a.sampled(
            rtt,
            now,
            pending,
        ).heals(next_rtt, later),
{
}

/// A prediction may wait for half a second at least and for ten seconds at most.
pub proof fn law_timeout_bounds(a: Adaptive)
    ensures
        MIN_TIMEOUT <= a.timeout() <= MAX_TIMEOUT,
{
}

/// Every measured round trip, the first and all later ones, becomes the SRTT or
/// moves it by an eighth of the way: eight times the new SRTT are the sample and
/// seven times the old SRTT, but for the rounding.
pub proof fn law_sample_moves_srtt(a: Adaptive, rtt: u64, now: u64, pending: bool)
    ensures
        a.sampled(rtt, now, pending).srtt matches Some(srtt) && match a.srtt {
            Some(old_srtt) => 8 * srtt <= rtt + 7 * old_srtt < 8 * srtt + 8,
            None => srtt == rtt,
        },
{
}

/// After every measured round trip, the first and all later ones, an SRTT above
/// 30 ms has predictions on. With one of 20 ms or less and no prediction pending,
/// the SRTT no longer asks for them, and only a glitch keeps them on. Otherwise
/// the SRTT asks for them if it did before.
pub proof fn law_sample_switches_predictions(a: Adaptive, rtt: u64, now: u64, pending: bool)
    ensures
        ({
            let b = a.sampled(rtt, now, pending);
            let asks = if b.srtt->0 > 30_000_000 {
                true
            } else if b.srtt->0 <= 20_000_000 && !pending {
                false
            } else {
                a.srtt_trigger
            };
            &&& b.srtt is Some
            &&& b.srtt_trigger == asks
            &&& b.predicts() == (asks || b.glitch_trigger != 0)
            &&& b.srtt->0 > 30_000_000 ==> b.predicts()
        }),
{
}

/// After every measured round trip, the first and all later ones, an SRTT above
/// 80 ms has underlining on, and so has a glitch that asks for more than ten
/// quick answers. Otherwise an SRTT of 50 ms or less has it off, and in between
/// it stays as it was.
pub proof fn law_sample_switches_underlining(a: Adaptive, rtt: u64, now: u64, pending: bool)
    ensures
        ({
            let b = a.sampled(rtt, now, pending);
            &&& b.srtt is Some
            &&& b.flagging == if b.srtt->0 > 80_000_000 || a.glitch_trigger > 10 {
                true
            } else if b.srtt->0 <= 50_000_000 {
                false
            } else {
                a.flagging
            }
        }),
{
}

/// A round trip of less than 250 ms takes one off what a glitch asks for, unless
/// the last one that did so is less than 150 ms ago. No other round trip does.
pub proof fn law_sample_heals(a: Adaptive, rtt: u64, now: u64, pending: bool)
    ensures
        ({
            let b = a.sampled(rtt, now, pending);
            if rtt < 250_000_000 && a.glitch_trigger > 0 && (
            a.last_quick_confirmation matches Some(last) ==> last + 150_000_000 <= now) {
                b.glitch_trigger + 1 == a.glitch_trigger && b.last_quick_confirmation == Some(now)
            } else {
                &&& b.glitch_trigger == a.glitch_trigger
                &&& b.last_quick_confirmation == a.last_quick_confirmation
            }
        }),
{
}

/// A prediction that waits for 250 ms has predictions shown from then on, until
/// ten quick answers have come; one that waits for five seconds asks for twenty
/// and has them underlined. A shorter wait changes nothing, and no wait changes
/// what was measured.
pub proof fn law_wait_is_a_glitch(a: Adaptive, waited: u64)
    ensures
        ({
            let b = a.waited(waited);
            &&& b.srtt == a.srtt
            &&& b.srtt_trigger == a.srtt_trigger
            &&& b.last_quick_confirmation == a.last_quick_confirmation
            &&& waited < 250_000_000 ==> b == a
            &&& 250_000_000 <= waited < 5_000_000_000 ==> {
                &&& b.predicts()
                &&& b.flagging == a.flagging
                &&& b.glitch_trigger == if a.glitch_trigger < 10 {
                    10
                } else {
                    a.glitch_trigger
                }
            }
            &&& 5_000_000_000 <= waited ==> b.predicts() && b.flagging && b.glitch_trigger == 20
        }),
{
}

/// Nothing is predicted or underlined before anything was measured, nor once the
/// triggers were reset; resetting them forgets no measurement.
pub proof fn law_untriggered(a: Adaptive)
    ensures
        Adaptive::initial().srtt is None,
        Adaptive::initial().last_quick_confirmation is None,
        !Adaptive::initial().predicts(),
        !Adaptive::initial().srtt_trigger,
        !Adaptive::initial().flagging,
        !a.untriggered().predicts(),
        !a.untriggered().srtt_trigger,
        !a.untriggered().flagging,
        a.untriggered().srtt == a.srtt,
        a.untriggered().last_quick_confirmation == a.last_quick_confirmation,
{
}

/// Predictions are shown for either of two reasons and for no other: the SRTT
/// asks for them, or a glitch is not healed yet.
pub proof fn law_reasons_to_predict(a: Adaptive)
    ensures
        a.srtt_trigger ==> a.predicts(),
        a.glitch_trigger > 0 ==> a.predicts(),
        a.predicts() ==> a.srtt_trigger || a.glitch_trigger > 0,
{
}

/// The triggers follow the SRTT as they do after a sample that equals it.
/// Without an SRTT they stay as they are.
pub proof fn law_triggers_follow(a: Adaptive, pending: bool, now: u64)
    ensures
        match a.srtt {
            Some(srtt) => {
                let b = a.sampled(srtt, now, pending);
                &&& a.triggered(pending).srtt_trigger == b.srtt_trigger
                &&& a.triggered(pending).flagging == b.flagging
            },
            None => a.triggered(pending) == a,
        },
        a.triggered(pending).srtt == a.srtt,
        a.triggered(pending).glitch_trigger == a.glitch_trigger,
        a.triggered(pending).last_quick_confirmation == a.last_quick_confirmation,
{
}

/// A prediction may wait three SRTTs, but half a second at least and ten seconds
/// at most; five seconds before anything was measured.
pub proof fn law_timeout_is_three_srtts(a: Adaptive)
    ensures
        match a.srtt {
            Some(srtt) => {
                &&& 500_000_000 <= a.timeout() <= 10_000_000_000
                &&& 500_000_000 <= 3 * srtt <= 10_000_000_000 ==> a.timeout() == 3 * srtt
                &&& 3 * srtt < 500_000_000 ==> a.timeout() == 500_000_000
                &&& 3 * srtt > 10_000_000_000 ==> a.timeout() == 10_000_000_000
            },
            None => a.timeout() == 5_000_000_000,
        },
{
}

} // verus!
